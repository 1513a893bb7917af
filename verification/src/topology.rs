//! Parsing the key/value text of the external cpu topology probe. Every
//! field is independently optional: the probe's output varies by platform
//! and virtualization, so an absent or unparsable field stays absent
//! instead of failing the whole read.
use vstd::prelude::*;

use crate::text::{
    all_digits, chars_eq, chars_to_string, copy_range, digits_val, find_char, find_char_at,
    is_digit, is_u64_digits, lines, pow10, split_lines, str_to_chars, trim, trimmed, views_of,
    lemma_digits_val_bound,
};

verus! {

broadcast use vstd::string::group_string_axioms;

/// Static cpu topology, captured once per session. `None` in any field
/// means the probe's output did not carry it, or carried it unparsably.
#[derive(Debug)]
pub struct CPUInfo {
    pub vendor_id: Option<String>,
    pub model_name: Option<String>,
    pub architecture: Option<String>,
    pub logical_cpus: Option<u64>,
    pub physical_cpus: Option<u64>,
    pub sockets: Option<u64>,
    pub virtualization: Option<String>,
    /// Maximum clock speed in Hz; the probe reports MHz, converted here
    /// by a factor of one million.
    pub max_speed_hz: Option<u64>,
}

/// The key of a probe line: everything before the first colon, trimmed.
/// `None` when the line holds no colon.
pub open spec fn line_key(l: Seq<char>) -> Option<Seq<char>> {
    match find_char_at(l, ':', 0) {
        Some(p) => Some(trimmed(l.subrange(0, p))),
        None => None,
    }
}

/// The value of a probe line: everything after the first colon, trimmed.
pub open spec fn line_value(l: Seq<char>) -> Seq<char> {
    match find_char_at(l, ':', 0) {
        Some(p) => trimmed(l.subrange(p + 1, l.len() as int)),
        None => Seq::empty(),
    }
}

/// The value of the first line carrying the given key, if any.
pub open spec fn kv_value(ls: Seq<Seq<char>>, key: Seq<char>) -> Option<Seq<char>>
    decreases ls.len(),
{
    if ls.len() == 0 {
        None
    } else if line_key(ls[0]) == Some(key) {
        Some(line_value(ls[0]))
    } else {
        kv_value(ls.drop_first(), key)
    }
}

/// The value the probe output reports under the given key, if any.
pub open spec fn topo_value(s: Seq<char>, key: Seq<char>) -> Option<Seq<char>> {
    kv_value(lines(s), key)
}

/// The numeric value the probe output reports under the given key:
/// absent when the key is absent or its value is not an unsigned integer.
pub open spec fn topo_num(s: Seq<char>, key: Seq<char>) -> Option<int> {
    match topo_value(s, key) {
        Some(t) => if is_u64_digits(t) {
            Some(digits_val(t))
        } else {
            None
        },
        None => None,
    }
}

/// A text field of the result agrees with the probe output: present with
/// the same characters, or absent on both sides.
pub open spec fn opt_text_eq(a: Option<String>, b: Option<Seq<char>>) -> bool {
    match (a, b) {
        (Some(x), Some(t)) => x@ == t,
        (None, None) => true,
        _ => false,
    }
}

/// A numeric field of the result agrees with its specified value.
pub open spec fn opt_num_eq(a: Option<u64>, b: Option<int>) -> bool {
    match (a, b) {
        (Some(x), Some(y)) => x == y,
        (None, None) => true,
        _ => false,
    }
}

/// Looks up the trimmed value of the first line whose trimmed key equals
/// `key`.
fn kv_lookup(ls: &Vec<Vec<char>>, key: &Vec<char>) -> (r: Option<Vec<char>>)
    ensures
        match r {
            Some(v) => kv_value(views_of(ls@), key@) == Some(v@),
            None => kv_value(views_of(ls@), key@).is_none(),
        },
{
    let ghost all = views_of(ls@);
    let mut i: usize = 0;
    assert(all.skip(0) =~= all);
    while i < ls.len()
        invariant
            i <= ls@.len(),
            all == views_of(ls@),
            kv_value(all, key@) == kv_value(all.skip(i as int), key@),
        decreases ls@.len() - i,
    {
        let ghost rest = all.skip(i as int);
        assert(rest[0] == all[i as int]);
        assert(rest.drop_first() =~= all.skip(i + 1));
        assert(ls@[i as int]@ == all[i as int]);
        let line = &ls[i];
        match find_char(line, ':') {
            Some(p) => {
                let k = trim(&copy_range(line, 0, p));
                if chars_eq(&k, key) {
                    assert(line_key(all[i as int]) == Some(key@));
                    let n = line.len();
                    let v = trim(&copy_range(line, p + 1, n));
                    assert(v@ == line_value(all[i as int]));
                    return Some(v);
                }
                assert(line_key(all[i as int]) != Some(key@));
            },
            None => {
                assert(line_key(all[i as int]).is_none());
            },
        }
        assert(kv_value(rest, key@) == kv_value(rest.drop_first(), key@));
        i += 1;
    }
    assert(all.skip(ls@.len() as int) =~= Seq::<Seq<char>>::empty());
    None
}

/// The fractional digits of a MHz value, padded or cut to exactly six
/// places so they count whole Hz.
pub open spec fn zeros(k: int) -> Seq<char>
    decreases k,
{
    if k <= 0 {
        Seq::empty()
    } else {
        zeros(k - 1).push('0')
    }
}

pub open spec fn pad6(f: Seq<char>) -> Seq<char> {
    if f.len() >= 6 {
        f.subrange(0, 6)
    } else {
        f + zeros(6 - f.len())
    }
}

/// The Hz value a MHz field of the probe denotes: an unsigned decimal
/// number with an optional fractional part, scaled by one million. Absent
/// when the text is not such a number.
pub open spec fn mhz_hz(t: Seq<char>) -> Option<int> {
    match find_char_at(t, '.', 0) {
        None => if t.len() > 0 && all_digits(t) {
            Some(digits_val(t) * 1000000)
        } else {
            None
        },
        Some(p) => {
            let ip = t.subrange(0, p);
            let fp = t.subrange(p + 1, t.len() as int);
            if ip.len() > 0 && all_digits(ip) && all_digits(fp) {
                Some(digits_val(ip) * 1000000 + digits_val(pad6(fp)))
            } else {
                None
            }
        },
    }
}

proof fn lemma_zeros_digits(k: int)
    ensures
        zeros(k).len() == if k <= 0 {
            0
        } else {
            k
        },
        all_digits(zeros(k)),
    decreases k,
{
    if k > 0 {
        lemma_zeros_digits(k - 1);
        assert(is_digit('0'));
        assert(forall|i: int|
            0 <= i < zeros(k).len() ==> is_digit(#[trigger] zeros(k)[i]) && zeros(k)[i] == (if i
                < k - 1 {
                zeros(k - 1)[i]
            } else {
                '0'
            }));
    }
}

fn checked_all_digits(v: &Vec<char>) -> (r: bool)
    ensures
        r == all_digits(v@),
{
    let mut i: usize = 0;
    while i < v.len()
        invariant
            i <= v@.len(),
            forall|j: int| 0 <= j < i ==> is_digit(#[trigger] v@[j]),
        decreases v@.len() - i,
    {
        let c = v[i] as u32;
        if c < 48 || c > 57 {
            assert(!is_digit(v@[i as int]));
            return false;
        }
        i += 1;
    }
    true
}

/// Parses a MHz field and converts it to whole Hz; `None` when the text
/// is not a decimal number or the Hz value does not fit a `u64`.
fn parse_mhz_to_hz(t: &Vec<char>) -> (r: Option<u64>)
    ensures
        match r {
            Some(v) => mhz_hz(t@) == Some(v as int),
            None => match mhz_hz(t@) {
                Some(w) => w > u64::MAX,
                None => true,
            },
        },
{
    let n = t.len();
    let (ip, fr): (Vec<char>, u64) = match find_char(t, '.') {
        None => {
            let ip = copy_range(t, 0, n);
            assert(ip@ =~= t@);
            (ip, 0u64)
        },
        Some(p) => {
            let ip = copy_range(t, 0, p);
            let fp = copy_range(t, p + 1, n);
            if !checked_all_digits(&fp) {
                return None;
            }
            let mut f6: Vec<char> = if fp.len() >= 6 {
                copy_range(&fp, 0, 6)
            } else {
                copy_range(&fp, 0, fp.len())
            };
            assert(fp@.len() < 6 ==> f6@ =~= fp@ + zeros(0));
            while f6.len() < 6
                invariant
                    fp@.len() >= 6 ==> f6@ == pad6(fp@),
                    fp@.len() < 6 ==> fp@.len() <= f6@.len() <= 6 && f6@ == fp@ + zeros(
                        f6@.len() - fp@.len(),
                    ),
                decreases 6 - f6@.len(),
            {
                let ghost k = f6@.len() - fp@.len();
                f6.push('0');
                proof {
                    lemma_zeros_digits(k + 1);
                    lemma_zeros_digits(k);
                    assert(zeros(k + 1) == zeros(k).push('0'));
                    assert(f6@ =~= fp@ + zeros(k + 1));
                }
            }
            assert(fp@.len() < 6 ==> f6@ =~= pad6(fp@));
            assert(f6@ == pad6(fp@));
            proof {
                lemma_zeros_digits(6 - fp@.len());
                assert(all_digits(pad6(fp@)));
                lemma_digits_val_bound(pad6(fp@));
                assert(pow10(6) == 10 * pow10(5));
                assert(pow10(5) == 10 * pow10(4));
                assert(pow10(4) == 10 * pow10(3));
                assert(pow10(3) == 10 * pow10(2));
                assert(pow10(2) == 10 * pow10(1));
                assert(pow10(1) == 10 * pow10(0));
                assert(pow10(0) == 1);
            }
            let fr = match crate::text::parse_u64(&f6) {
                Some(v) => v,
                None => {
                    assert(false);
                    0u64
                },
            };
            (ip, fr)
        },
    };
    assert(fr < 1000000);
    if ip.len() == 0 {
        return None;
    }
    let ipv = match crate::text::parse_u64(&ip) {
        Some(v) => v,
        None => {
            // The integral part alone exceeds u64::MAX, so the Hz value does too.
            proof {
                if all_digits(ip@) {
                    let w = digits_val(ip@);
                    assert(w * 1000000 >= w) by (nonlinear_arith)
                        requires
                            w >= 0,
                    ;
                }
            }
            return None;
        },
    };
    if ipv > (u64::MAX - fr) / 1000000 {
        proof {
            assert(ipv * 1000000 + fr > u64::MAX) by (nonlinear_arith)
                requires
                    ipv > (u64::MAX - fr) / 1000000,
                    fr < 1000000,
                    ipv <= u64::MAX,
            ;
        }
        return None;
    }
    assert(ipv * 1000000 + fr <= u64::MAX) by (nonlinear_arith)
        requires
            ipv <= (u64::MAX - fr) / 1000000,
            fr < 1000000,
    ;
    Some(ipv * 1000000 + fr)
}

/// The physical cpu count the probe output denotes: cores per socket
/// times the socket count (taken as one when absent), absent when the
/// product does not fit a `u64`.
pub open spec fn topo_physical(s: Seq<char>) -> Option<int> {
    match topo_num(s, "Core(s) per socket"@) {
        Some(c) => {
            let m = match topo_num(s, "Socket(s)"@) {
                Some(k) => k,
                None => 1,
            };
            if c * m <= u64::MAX {
                Some(c * m)
            } else {
                None
            }
        },
        None => None,
    }
}

/// The Hz value of the probe's maximum-MHz field, absent when the field
/// is absent, unparsable, or out of range.
pub open spec fn topo_max_hz(s: Seq<char>) -> Option<int> {
    match topo_value(s, "CPU max MHz"@) {
        Some(t) => match mhz_hz(t) {
            Some(w) => if w <= u64::MAX {
                Some(w)
            } else {
                None
            },
            None => None,
        },
        None => None,
    }
}

fn lookup_text(ls: &Vec<Vec<char>>, key: &str) -> (r: Option<String>)
    ensures
        opt_text_eq(r, kv_value(views_of(ls@), key@)),
{
    let kc = str_to_chars(key);
    match kv_lookup(ls, &kc) {
        Some(v) => Some(chars_to_string(&v)),
        None => None,
    }
}

fn lookup_num(ls: &Vec<Vec<char>>, key: &str) -> (r: Option<u64>)
    ensures
        opt_num_eq(
            r,
            match kv_value(views_of(ls@), key@) {
                Some(t) => if is_u64_digits(t) {
                    Some(digits_val(t))
                } else {
                    None
                },
                None => None,
            },
        ),
{
    let kc = str_to_chars(key);
    match kv_lookup(ls, &kc) {
        Some(v) => crate::text::parse_u64(&v),
        None => None,
    }
}

/// Assembles the topology fields out of the probe's key/value output.
/// Each field is read independently; a missing or unparsable field leaves
/// only that field absent.
pub fn cpu_info(lscpu_output: &str) -> (r: CPUInfo)
    ensures
        opt_text_eq(r.vendor_id, topo_value(lscpu_output@, "Vendor ID"@)),
        opt_text_eq(r.model_name, topo_value(lscpu_output@, "Model name"@)),
        opt_text_eq(r.architecture, topo_value(lscpu_output@, "Architecture"@)),
        opt_text_eq(r.virtualization, topo_value(lscpu_output@, "Virtualization"@)),
        opt_num_eq(r.logical_cpus, topo_num(lscpu_output@, "CPU(s)"@)),
        opt_num_eq(r.sockets, topo_num(lscpu_output@, "Socket(s)"@)),
        opt_num_eq(r.physical_cpus, topo_physical(lscpu_output@)),
        opt_num_eq(r.max_speed_hz, topo_max_hz(lscpu_output@)),
{
    let chars = str_to_chars(lscpu_output);
    let ls = split_lines(&chars);
    let vendor_id = lookup_text(&ls, "Vendor ID");
    let model_name = lookup_text(&ls, "Model name");
    let architecture = lookup_text(&ls, "Architecture");
    let virtualization = lookup_text(&ls, "Virtualization");
    let logical_cpus = lookup_num(&ls, "CPU(s)");
    let sockets = lookup_num(&ls, "Socket(s)");
    let physical_cpus = match lookup_num(&ls, "Core(s) per socket") {
        Some(c) => {
            let m: u64 = match sockets {
                Some(k) => k,
                None => 1,
            };
            if m == 0 {
                assert(c as int * m as int == 0) by (nonlinear_arith)
                    requires
                        m == 0,
                ;
                Some(0)
            } else if c > u64::MAX / m {
                proof {
                    assert(c as int * m as int > u64::MAX) by (nonlinear_arith)
                        requires
                            c > u64::MAX / m,
                            m >= 1,
                            c <= u64::MAX,
                    ;
                }
                None
            } else {
                assert(c as int * m as int <= u64::MAX) by (nonlinear_arith)
                    requires
                        c <= u64::MAX / m,
                        m >= 1,
                ;
                Some(c * m)
            }
        },
        None => None,
    };
    let max_speed_hz = match kv_lookup(&ls, &str_to_chars("CPU max MHz")) {
        Some(v) => parse_mhz_to_hz(&v),
        None => None,
    };
    CPUInfo {
        vendor_id,
        model_name,
        architecture,
        logical_cpus,
        physical_cpus,
        sockets,
        virtualization,
        max_speed_hz,
    }
}

} // verus!
