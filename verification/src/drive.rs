//! Reading a block device's I/O counter file: one line of seventeen
//! unsigned integer fields in fixed order, plus the device's sector size.
use vstd::prelude::*;

use crate::text::{
    digits_val, is_u64_digits, lines, parse_u64, split_lines, split_tokens, str_eq, str_to_chars,
    strip_newlines, tokens, trim, trimmed, views_of, without_newlines,
};
use crate::ParseError;

verus! {

broadcast use vstd::string::group_string_axioms;

/// One fully parsed block-device counter snapshot, fields in the order the
/// kernel reports them.
#[derive(Clone, Copy, Debug, PartialEq, Eq, Structural)]
pub struct DiskStat {
    pub read_ios: u64,
    pub read_merges: u64,
    pub read_sectors: u64,
    pub read_ticks: u64,
    pub write_ios: u64,
    pub write_merges: u64,
    pub write_sectors: u64,
    pub write_ticks: u64,
    pub in_flight: u64,
    pub io_ticks: u64,
    pub time_in_queue: u64,
    pub discard_ios: u64,
    pub discard_merges: u64,
    pub discard_sectors: u64,
    pub discard_ticks: u64,
    pub flush_ios: u64,
    pub flush_ticks: u64,
}

impl DiskStat {
    /// The seventeen fields in their reported order.
    pub open spec fn field_seq(self) -> Seq<u64> {
        seq![
            self.read_ios,
            self.read_merges,
            self.read_sectors,
            self.read_ticks,
            self.write_ios,
            self.write_merges,
            self.write_sectors,
            self.write_ticks,
            self.in_flight,
            self.io_ticks,
            self.time_in_queue,
            self.discard_ios,
            self.discard_merges,
            self.discard_sectors,
            self.discard_ticks,
            self.flush_ios,
            self.flush_ticks,
        ]
    }

    /// The snapshot as a mapping from field name to value.
    pub open spec fn field_map(self) -> Map<Seq<char>, u64> {
        map![
            "read_ios"@ => self.read_ios,
            "read_merges"@ => self.read_merges,
            "read_sectors"@ => self.read_sectors,
            "read_ticks"@ => self.read_ticks,
            "write_ios"@ => self.write_ios,
            "write_merges"@ => self.write_merges,
            "write_sectors"@ => self.write_sectors,
            "write_ticks"@ => self.write_ticks,
            "in_flight"@ => self.in_flight,
            "io_ticks"@ => self.io_ticks,
            "time_in_queue"@ => self.time_in_queue,
            "discard_ios"@ => self.discard_ios,
            "discard_merges"@ => self.discard_merges,
            "discard_sectors"@ => self.discard_sectors,
            "discard_ticks"@ => self.discard_ticks,
            "flush_ios"@ => self.flush_ios,
            "flush_ticks"@ => self.flush_ticks,
        ]
    }

    /// The seventeen fields in their reported order, as a vector.
    pub fn fields_in_order(&self) -> (r: Vec<u64>)
        ensures
            r@ == self.field_seq(),
    {
        let mut r: Vec<u64> = Vec::new();
        r.push(self.read_ios);
        r.push(self.read_merges);
        r.push(self.read_sectors);
        r.push(self.read_ticks);
        r.push(self.write_ios);
        r.push(self.write_merges);
        r.push(self.write_sectors);
        r.push(self.write_ticks);
        r.push(self.in_flight);
        r.push(self.io_ticks);
        r.push(self.time_in_queue);
        r.push(self.discard_ios);
        r.push(self.discard_merges);
        r.push(self.discard_sectors);
        r.push(self.discard_ticks);
        r.push(self.flush_ios);
        r.push(self.flush_ticks);
        assert(r@ =~= self.field_seq());
        r
    }

    /// Looks a field up by its name; `None` exactly for unknown names.
    pub fn field(&self, name: &str) -> (r: Option<u64>)
        ensures
            match r {
                Some(v) => self.field_map().contains_key(name@) && v == self.field_map()[name@],
                None => !self.field_map().contains_key(name@),
            },
    {
        proof {
            reveal_strlit("read_ios");
            reveal_strlit("read_merges");
            reveal_strlit("read_sectors");
            reveal_strlit("read_ticks");
            reveal_strlit("write_ios");
            reveal_strlit("write_merges");
            reveal_strlit("write_sectors");
            reveal_strlit("write_ticks");
            reveal_strlit("in_flight");
            reveal_strlit("io_ticks");
            reveal_strlit("time_in_queue");
            reveal_strlit("discard_ios");
            reveal_strlit("discard_merges");
            reveal_strlit("discard_sectors");
            reveal_strlit("discard_ticks");
            reveal_strlit("flush_ios");
            reveal_strlit("flush_ticks");
            assert("read_ios"@.len() == 8 && "read_ios"@[0] == 'r');
            assert("read_merges"@.len() == 11 && "read_merges"@[0] == 'r');
            assert("read_sectors"@.len() == 12 && "read_sectors"@[0] == 'r');
            assert("read_ticks"@.len() == 10 && "read_ticks"@[0] == 'r');
            assert("write_ios"@.len() == 9 && "write_ios"@[0] == 'w');
            assert("write_merges"@.len() == 12 && "write_merges"@[0] == 'w');
            assert("write_sectors"@.len() == 13 && "write_sectors"@[0] == 'w');
            assert("write_ticks"@.len() == 11 && "write_ticks"@[0] == 'w');
            assert("in_flight"@.len() == 9 && "in_flight"@[0] == 'i');
            assert("io_ticks"@.len() == 8 && "io_ticks"@[0] == 'i');
            assert("time_in_queue"@.len() == 13 && "time_in_queue"@[0] == 't');
            assert("discard_ios"@.len() == 11 && "discard_ios"@[0] == 'd');
            assert("discard_merges"@.len() == 14 && "discard_merges"@[0] == 'd');
            assert("discard_sectors"@.len() == 15 && "discard_sectors"@[0] == 'd');
            assert("discard_ticks"@.len() == 13 && "discard_ticks"@[0] == 'd');
            assert("flush_ios"@.len() == 9 && "flush_ios"@[0] == 'f');
            assert("flush_ticks"@.len() == 11 && "flush_ticks"@[0] == 'f');
        }
        if str_eq(name, "read_ios") {
            Some(self.read_ios)
        } else if str_eq(name, "read_merges") {
            Some(self.read_merges)
        } else if str_eq(name, "read_sectors") {
            Some(self.read_sectors)
        } else if str_eq(name, "read_ticks") {
            Some(self.read_ticks)
        } else if str_eq(name, "write_ios") {
            Some(self.write_ios)
        } else if str_eq(name, "write_merges") {
            Some(self.write_merges)
        } else if str_eq(name, "write_sectors") {
            Some(self.write_sectors)
        } else if str_eq(name, "write_ticks") {
            Some(self.write_ticks)
        } else if str_eq(name, "in_flight") {
            Some(self.in_flight)
        } else if str_eq(name, "io_ticks") {
            Some(self.io_ticks)
        } else if str_eq(name, "time_in_queue") {
            Some(self.time_in_queue)
        } else if str_eq(name, "discard_ios") {
            Some(self.discard_ios)
        } else if str_eq(name, "discard_merges") {
            Some(self.discard_merges)
        } else if str_eq(name, "discard_sectors") {
            Some(self.discard_sectors)
        } else if str_eq(name, "discard_ticks") {
            Some(self.discard_ticks)
        } else if str_eq(name, "flush_ios") {
            Some(self.flush_ios)
        } else if str_eq(name, "flush_ticks") {
            Some(self.flush_ticks)
        } else {
            None
        }
    }
}

/// A well-formed device counter file: its first line holds at least
/// seventeen unsigned integer fields.
pub open spec fn disk_line_ok(s: Seq<char>) -> bool {
    let t = tokens(lines(s)[0]);
    &&& t.len() >= 17
    &&& forall|k: int| 0 <= k < 17 ==> is_u64_digits(#[trigger] t[k])
}

/// The value of the `k`-th field of the device counter file's first line.
pub open spec fn disk_field(s: Seq<char>, k: int) -> int {
    digits_val(tokens(lines(s)[0])[k])
}

proof fn lemma_lines_from_nonempty(s: Seq<char>, i: int, cur: Seq<char>, acc: Seq<Seq<char>>)
    ensures
        crate::text::lines_from(s, i, cur, acc).len() >= acc.len() + 1,
    decreases s.len() - i,
{
    if 0 <= i && i < s.len() {
        if s[i] == '\n' {
            lemma_lines_from_nonempty(s, i + 1, Seq::empty(), acc.push(cur));
        } else {
            lemma_lines_from_nonempty(s, i + 1, cur.push(s[i]), acc);
        }
    }
}

/// Parses the device counter file: seventeen unsigned integer fields on
/// its first line, every one required — a missing or non-numeric field
/// rejects the whole read, no field is silently defaulted.
pub fn sys_stat(contents: &str) -> (r: Result<DiskStat, ParseError>)
    ensures
        match r {
            Ok(d) => {
                &&& disk_line_ok(contents@)
                &&& forall|k: int| 0 <= k < 17 ==> d.field_seq()[k] == disk_field(contents@, k)
            },
            Err(e) => !disk_line_ok(contents@) && e == ParseError::Malformed,
        },
{
    let chars = str_to_chars(contents);
    let ls = split_lines(&chars);
    proof {
        lemma_lines_from_nonempty(contents@, 0, Seq::empty(), Seq::empty());
    }
    assert(ls@[0]@ == lines(contents@)[0]);
    let toks = split_tokens(&ls[0]);
    let ghost tv = tokens(lines(contents@)[0]);
    if toks.len() < 17 {
        return Err(ParseError::Malformed);
    }
    let mut vals: Vec<u64> = Vec::new();
    let mut k: usize = 0;
    while k < 17
        invariant
            k <= 17,
            toks@.len() >= 17,
            tv == tokens(lines(contents@)[0]),
            tv == views_of(toks@),
            vals@.len() == k,
            forall|j: int|
                0 <= j < k ==> is_u64_digits(#[trigger] tv[j]) && vals@[j] == digits_val(tv[j]),
        decreases 17 - k,
    {
        assert(toks@[k as int]@ == tv[k as int]);
        match parse_u64(&toks[k]) {
            Some(v) => {
                vals.push(v);
            },
            None => {
                assert(!is_u64_digits(tv[k as int]));
                return Err(ParseError::Malformed);
            },
        }
        k += 1;
    }
    let d = DiskStat {
        read_ios: vals[0],
        read_merges: vals[1],
        read_sectors: vals[2],
        read_ticks: vals[3],
        write_ios: vals[4],
        write_merges: vals[5],
        write_sectors: vals[6],
        write_ticks: vals[7],
        in_flight: vals[8],
        io_ticks: vals[9],
        time_in_queue: vals[10],
        discard_ios: vals[11],
        discard_merges: vals[12],
        discard_sectors: vals[13],
        discard_ticks: vals[14],
        flush_ios: vals[15],
        flush_ticks: vals[16],
    };
    Ok(d)
}

/// Parses the device's sector size: a single unsigned integer, tolerating
/// surrounding whitespace and line breaks only.
pub fn get_sector_size(contents: &str) -> (r: Result<u64, ParseError>)
    ensures
        match r {
            Ok(v) => {
                &&& is_u64_digits(trimmed(without_newlines(contents@)))
                &&& v == digits_val(trimmed(without_newlines(contents@)))
            },
            Err(e) => {
                &&& !is_u64_digits(trimmed(without_newlines(contents@)))
                &&& e == ParseError::Malformed
            },
        },
{
    let chars = str_to_chars(contents);
    let stripped = strip_newlines(&chars);
    let t = trim(&stripped);
    match parse_u64(&t) {
        Some(v) => Ok(v),
        None => Err(ParseError::Malformed),
    }
}

} // verus!
