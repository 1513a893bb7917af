//! Reading the kernel's cpu time accounting: the `cpu` lines of the global
//! counter file, and the per-core scaling frequency.
use vstd::prelude::*;

use crate::text::{
    digits_val, is_u64_digits, lines, parse_u64, split_lines, split_tokens, str_to_chars,
    strip_newlines, tokens, views_of, without_newlines,
};
use crate::ParseError;

verus! {

/// One fully parsed cpu counter snapshot: ticks spent in each state since
/// boot, in the fixed order the kernel reports them.
#[derive(Clone, Copy, Debug, PartialEq, Eq, Structural)]
pub struct CpuTimes {
    pub user: u64,
    pub nice: u64,
    pub system: u64,
    pub idle: u64,
    pub iowait: u64,
    pub irq: u64,
    pub softirq: u64,
    pub steal: u64,
    pub guest: u64,
    pub guest_nice: u64,
}

impl CpuTimes {
    /// Ticks spent in any state: the denominator of the busy ratio.
    pub open spec fn total(self) -> int {
        self.user + self.nice + self.system + self.idle + self.iowait + self.irq + self.softirq
            + self.steal + self.guest + self.guest_nice
    }

    /// Ticks spent idle, counting time waiting on I/O as idle.
    pub open spec fn idle_total(self) -> int {
        self.idle + self.iowait
    }
}

/// A token naming a cpu entry: `cpu` followed by an optional core number.
pub open spec fn starts_with_cpu(t: Seq<char>) -> bool {
    t.len() >= 3 && t[0] == 'c' && t[1] == 'p' && t[2] == 'u'
}

/// A well-formed cpu counter line: the `cpu` label and at least ten
/// unsigned integer fields.
pub open spec fn cpu_line_ok(s: Seq<char>) -> bool {
    let t = tokens(s);
    &&& t.len() >= 11
    &&& starts_with_cpu(t[0])
    &&& forall|k: int| 1 <= k < 11 ==> is_u64_digits(#[trigger] t[k])
}

/// The value of the `k`-th field of a cpu counter line.
pub open spec fn cpu_field(s: Seq<char>, k: int) -> int {
    digits_val(tokens(s)[k])
}

/// The snapshot a well-formed cpu counter line denotes.
pub open spec fn is_parsed_cpu_line(s: Seq<char>, c: CpuTimes) -> bool {
    &&& c.user == cpu_field(s, 1)
    &&& c.nice == cpu_field(s, 2)
    &&& c.system == cpu_field(s, 3)
    &&& c.idle == cpu_field(s, 4)
    &&& c.iowait == cpu_field(s, 5)
    &&& c.irq == cpu_field(s, 6)
    &&& c.softirq == cpu_field(s, 7)
    &&& c.steal == cpu_field(s, 8)
    &&& c.guest == cpu_field(s, 9)
    &&& c.guest_nice == cpu_field(s, 10)
}

fn parse_cpu_line_chars(t: &Vec<char>) -> (r: Result<CpuTimes, ParseError>)
    ensures
        match r {
            Ok(c) => cpu_line_ok(t@) && is_parsed_cpu_line(t@, c),
            Err(e) => !cpu_line_ok(t@) && e == ParseError::Malformed,
        },
{
    let toks = split_tokens(t);
    let ghost tv = tokens(t@);
    if toks.len() < 11 {
        return Err(ParseError::Malformed);
    }
    assert(toks@[0]@ == tv[0]);
    let head = &toks[0];
    if !(head.len() >= 3 && head[0] == 'c' && head[1] == 'p' && head[2] == 'u') {
        assert(!starts_with_cpu(tv[0]));
        return Err(ParseError::Malformed);
    }
    assert(starts_with_cpu(tv[0]));
    let mut vals: Vec<u64> = Vec::new();
    let mut k: usize = 1;
    while k < 11
        invariant
            1 <= k <= 11,
            toks@.len() >= 11,
            tv == tokens(t@),
            tv == views_of(toks@),
            vals@.len() == k - 1,
            forall|j: int|
                1 <= j < k ==> is_u64_digits(#[trigger] tv[j]) && vals@[j - 1] == digits_val(tv[j]),
        decreases 11 - k,
    {
        assert(toks@[k as int]@ == tv[k as int]);
        match parse_u64(&toks[k]) {
            Some(v) => {
                vals.push(v);
            },
            None => {
                assert(!is_u64_digits(tv[k as int]));
                return Err(ParseError::Malformed);
            },
        }
        k += 1;
    }
    let c = CpuTimes {
        user: vals[0],
        nice: vals[1],
        system: vals[2],
        idle: vals[3],
        iowait: vals[4],
        irq: vals[5],
        softirq: vals[6],
        steal: vals[7],
        guest: vals[8],
        guest_nice: vals[9],
    };
    Ok(c)
}

/// Parses one cpu counter line: the `cpu` label and ten tick fields, each
/// a hard requirement — a missing or non-numeric field rejects the line.
pub fn parse_proc_stat_line(line: &str) -> (r: Result<CpuTimes, ParseError>)
    ensures
        match r {
            Ok(c) => cpu_line_ok(line@) && is_parsed_cpu_line(line@, c),
            Err(e) => !cpu_line_ok(line@) && e == ParseError::Malformed,
        },
{
    let chars = str_to_chars(line);
    parse_cpu_line_chars(&chars)
}

/// The lines of the global counter file that report cpu entries, in order.
pub open spec fn cpu_only(ls: Seq<Seq<char>>) -> Seq<Seq<char>>
    decreases ls.len(),
{
    if ls.len() == 0 {
        Seq::empty()
    } else if starts_with_cpu(ls[0]) {
        seq![ls[0]] + cpu_only(ls.drop_first())
    } else {
        cpu_only(ls.drop_first())
    }
}

pub open spec fn cpu_lines(s: Seq<char>) -> Seq<Seq<char>> {
    cpu_only(lines(s))
}

/// The line a caller's target denotes: the aggregate line first, then one
/// line per core, so core `c` stands at position `c + 1`.
pub open spec fn selected_line(core: Option<usize>) -> int {
    match core {
        None => 0,
        Some(c) => c + 1,
    }
}

fn copy_chars(v: &Vec<char>) -> (r: Vec<char>)
    ensures
        r@ == v@,
{
    let mut r: Vec<char> = Vec::new();
    let mut i: usize = 0;
    while i < v.len()
        invariant
            i <= v@.len(),
            r@ == v@.subrange(0, i as int),
        decreases v@.len() - i,
    {
        r.push(v[i]);
        assert(r@ =~= v@.subrange(0, i + 1 as int));
        i += 1;
    }
    assert(r@ =~= v@);
    r
}

fn filter_cpu_lines(ls: &Vec<Vec<char>>) -> (r: Vec<Vec<char>>)
    ensures
        views_of(r@) == cpu_only(views_of(ls@)),
{
    let ghost all = views_of(ls@);
    let mut acc: Vec<Vec<char>> = Vec::new();
    let mut i: usize = 0;
    assert(views_of(acc@) =~= Seq::<Seq<char>>::empty());
    assert(all.skip(0) =~= all);
    while i < ls.len()
        invariant
            i <= ls@.len(),
            all == views_of(ls@),
            cpu_only(all) == views_of(acc@) + cpu_only(all.skip(i as int)),
        decreases ls@.len() - i,
    {
        let ghost rest = all.skip(i as int);
        assert(rest[0] == all[i as int]);
        assert(rest.drop_first() =~= all.skip(i + 1));
        assert(ls@[i as int]@ == all[i as int]);
        let line = &ls[i];
        if line.len() >= 3 && line[0] == 'c' && line[1] == 'p' && line[2] == 'u' {
            assert(starts_with_cpu(all[i as int]));
            let ghost old_acc = acc@;
            let c = copy_chars(line);
            acc.push(c);
            assert(views_of(acc@) =~= views_of(old_acc).push(all[i as int]));
            assert(cpu_only(rest) =~= seq![rest[0]] + cpu_only(rest.drop_first()));
            assert(views_of(acc@) + cpu_only(all.skip(i + 1)) =~= views_of(old_acc) + cpu_only(
                rest,
            ));
        } else {
            assert(!starts_with_cpu(all[i as int]));
            assert(cpu_only(rest) == cpu_only(rest.drop_first()));
        }
        i += 1;
    }
    assert(all.skip(ls@.len() as int) =~= Seq::<Seq<char>>::empty());
    assert(cpu_only(Seq::<Seq<char>>::empty()) =~= Seq::<Seq<char>>::empty());
    assert(views_of(acc@) + Seq::<Seq<char>>::empty() =~= views_of(acc@));
    acc
}

/// Reads one snapshot out of the global counter text: the aggregate cpu
/// line when no core is named, else the line of that core. The requested
/// line must exist and parse in full; each of the ten fields is required,
/// and a core index beyond the reported lines is an explicit failure.
pub fn get_cpu_usage(contents: &str, core: Option<usize>) -> (r: Result<CpuTimes, ParseError>)
    ensures
        match r {
            Ok(c) => {
                &&& selected_line(core) < cpu_lines(contents@).len()
                &&& cpu_line_ok(cpu_lines(contents@)[selected_line(core)])
                &&& is_parsed_cpu_line(cpu_lines(contents@)[selected_line(core)], c)
            },
            Err(ParseError::CoreOutOfRange) => selected_line(core) >= cpu_lines(contents@).len(),
            Err(ParseError::Malformed) => {
                &&& selected_line(core) < cpu_lines(contents@).len()
                &&& !cpu_line_ok(cpu_lines(contents@)[selected_line(core)])
            },
            Err(ParseError::Overflow) => false,
        },
{
    let chars = str_to_chars(contents);
    let ls = split_lines(&chars);
    let cl = filter_cpu_lines(&ls);
    let ghost clv = cpu_lines(contents@);
    assert(views_of(cl@) == clv);
    let sel: usize = match core {
        None => 0,
        Some(c) => {
            if c >= cl.len() {
                return Err(ParseError::CoreOutOfRange);
            }
            c + 1
        },
    };
    if sel >= cl.len() {
        return Err(ParseError::CoreOutOfRange);
    }
    assert(cl@[sel as int]@ == clv[sel as int]);
    parse_cpu_line_chars(&cl[sel])
}

/// Parses the per-core scaling frequency, reported in kHz, and converts it
/// to Hz by multiplying with 1000.
pub fn parse_scaling_cur_freq(contents: &str) -> (r: Result<u64, ParseError>)
    ensures
        match r {
            Ok(hz) => {
                &&& is_u64_digits(without_newlines(contents@))
                &&& digits_val(without_newlines(contents@)) * 1000 <= u64::MAX
                &&& hz == digits_val(without_newlines(contents@)) * 1000
            },
            Err(ParseError::Malformed) => !is_u64_digits(without_newlines(contents@)),
            Err(ParseError::Overflow) => {
                &&& is_u64_digits(without_newlines(contents@))
                &&& digits_val(without_newlines(contents@)) * 1000 > u64::MAX
            },
            Err(ParseError::CoreOutOfRange) => false,
        },
{
    let chars = str_to_chars(contents);
    let stripped = strip_newlines(&chars);
    match parse_u64(&stripped) {
        Some(khz) => {
            if khz > u64::MAX / 1000 {
                proof {
                    assert(khz * 1000 > u64::MAX) by (nonlinear_arith)
                        requires
                            khz > u64::MAX / 1000,
                    ;
                }
                Err(ParseError::Overflow)
            } else {
                assert(khz * 1000 <= u64::MAX) by (nonlinear_arith)
                    requires
                        khz <= u64::MAX / 1000,
                ;
                Ok(khz * 1000)
            }
        },
        None => Err(ParseError::Malformed),
    }
}

} // verus!
