//! The log-line grammar: a line announces a server endpoint when it carries
//! the connect marker, followed later by an `address=` tag, one whitespace
//! byte, a run of digits and dots, a colon, and a decimal port. The address
//! run is parsed as a dotted quad in the strict form (no leading zeros, four
//! components of at most three digits, each at most 255); a run that is not
//! a well-formed address still announces the port, with no address. A port
//! above 65535 makes the whole line announce nothing.
use vstd::prelude::*;

use crate::Ipv4;
use crate::scan::{
    contains_at, find_pat, lemma_find_pat_bounds, split_seq, lemma_split_whole, lemma_split_step,
    views_of,
};

verus! {

/// One endpoint announcement extracted from a log line. The address is
/// absent when the announced text is not a well-formed dotted quad.
#[derive(Clone, Copy, PartialEq, Eq, Debug)]
pub struct LogMessage {
    pub ip: Option<Ipv4>,
    pub port: u16,
}

pub open spec fn is_digit(b: u8) -> bool {
    48 <= b <= 57
}

pub open spec fn is_ip_char(b: u8) -> bool {
    is_digit(b) || b == 46
}

pub open spec fn is_ws_byte(b: u8) -> bool {
    b == 32 || b == 9 || b == 10 || b == 13 || b == 11 || b == 12
}

/// The marker that announces a new game-server connection.
pub open spec fn marker_bytes() -> Seq<u8> {
    seq![
        'N' as u8, 'e' as u8, 't' as u8, 'w' as u8, 'o' as u8, 'r' as u8, 'k' as u8, '.' as u8,
        'G' as u8, 'o' as u8, 't' as u8, 'o' as u8, 'G' as u8, 'a' as u8, 'm' as u8, 'e' as u8,
        'S' as u8, 'e' as u8, 'r' as u8, 'v' as u8, 'e' as u8, '(' as u8, ')' as u8,
    ]
}

/// The tag that introduces the endpoint text.
pub open spec fn address_tag() -> Seq<u8> {
    seq!['a' as u8, 'd' as u8, 'd' as u8, 'r' as u8, 'e' as u8, 's' as u8, 's' as u8, '=' as u8]
}

/// The end of the run of address characters (digits and dots) starting at
/// `from`.
pub open spec fn ip_run_end(s: Seq<u8>, from: int) -> int
    decreases s.len() - from,
{
    if from < 0 || from >= s.len() {
        from
    } else if is_ip_char(s[from]) {
        ip_run_end(s, from + 1)
    } else {
        from
    }
}

/// The end of the run of decimal digits starting at `from`.
pub open spec fn digit_run_end(s: Seq<u8>, from: int) -> int
    decreases s.len() - from,
{
    if from < 0 || from >= s.len() {
        from
    } else if is_digit(s[from]) {
        digit_run_end(s, from + 1)
    } else {
        from
    }
}

/// The value of a run of decimal digits.
pub open spec fn digits_val(s: Seq<u8>) -> int
    decreases s.len(),
{
    if s.len() == 0 {
        0
    } else {
        digits_val(s.drop_last()) * 10 + s.last() - 48
    }
}

/// A well-formed dotted-quad component: one to three digits, no leading
/// zero, value at most 255.
pub open spec fn octet_ok(p: Seq<u8>) -> bool {
    &&& 1 <= p.len() <= 3
    &&& forall|i: int| 0 <= i < p.len() ==> is_digit(p[i])
    &&& (p.len() > 1 ==> p[0] != 48)
    &&& digits_val(p) <= 255
}

/// The address a run of digits and dots denotes, in the strict dotted-quad
/// form, if it denotes one.
pub open spec fn parse_ipv4(s: Seq<u8>) -> Option<Ipv4> {
    let parts = split_seq(s, 46u8);
    if parts.len() == 4 && octet_ok(parts[0]) && octet_ok(parts[1]) && octet_ok(parts[2])
        && octet_ok(parts[3]) {
        Some(
            Ipv4 {
                a: digits_val(parts[0]) as u8,
                b: digits_val(parts[1]) as u8,
                c: digits_val(parts[2]) as u8,
                d: digits_val(parts[3]) as u8,
            },
        )
    } else {
        None
    }
}

/// The endpoint text starting at position `p` (just after the tag): one
/// whitespace byte, the address run, a colon, and the port digits.
pub open spec fn endpoint_after(line: Seq<u8>, p: int) -> Option<LogMessage> {
    if p < line.len() && is_ws_byte(line[p]) {
        let q = p + 1;
        let r = ip_run_end(line, q);
        if r > q && r < line.len() && line[r] == 58 {
            let e = digit_run_end(line, r + 1);
            if e > r + 1 && digits_val(line.subrange(r + 1, e)) <= 65535 {
                Some(
                    LogMessage {
                        ip: parse_ipv4(line.subrange(q, r)),
                        port: digits_val(line.subrange(r + 1, e)) as u16,
                    },
                )
            } else {
                None
            }
        } else {
            None
        }
    } else {
        None
    }
}

/// The endpoint a log line announces, if any: the first marker occurrence,
/// the first tag after it, then the endpoint text.
pub open spec fn line_endpoint(line: Seq<u8>) -> Option<LogMessage> {
    match find_pat(line, marker_bytes(), 0) {
        None => None,
        Some(m) => match find_pat(line, address_tag(), m + marker_bytes().len()) {
            None => None,
            Some(a) => endpoint_after(line, a + address_tag().len()),
        },
    }
}

fn marker_vec() -> (v: Vec<u8>)
    ensures
        v@ == marker_bytes(),
{
    let mut v: Vec<u8> = Vec::new();
    v.push('N' as u8);
    v.push('e' as u8);
    v.push('t' as u8);
    v.push('w' as u8);
    v.push('o' as u8);
    v.push('r' as u8);
    v.push('k' as u8);
    v.push('.' as u8);
    v.push('G' as u8);
    v.push('o' as u8);
    v.push('t' as u8);
    v.push('o' as u8);
    v.push('G' as u8);
    v.push('a' as u8);
    v.push('m' as u8);
    v.push('e' as u8);
    v.push('S' as u8);
    v.push('e' as u8);
    v.push('r' as u8);
    v.push('v' as u8);
    v.push('e' as u8);
    v.push('(' as u8);
    v.push(')' as u8);
    proof {
        assert(v@ =~= marker_bytes());
    }
    v
}

fn address_tag_vec() -> (v: Vec<u8>)
    ensures
        v@ == address_tag(),
{
    let mut v: Vec<u8> = Vec::new();
    v.push('a' as u8);
    v.push('d' as u8);
    v.push('d' as u8);
    v.push('r' as u8);
    v.push('e' as u8);
    v.push('s' as u8);
    v.push('s' as u8);
    v.push('=' as u8);
    proof {
        assert(v@ =~= address_tag());
    }
    v
}

/// Whether `pat` occurs in `hay` at position `i`.
fn match_at(hay: &Vec<u8>, pat: &Vec<u8>, i: usize) -> (r: bool)
    requires
        i + pat@.len() <= hay@.len(),
    ensures
        r == contains_at(hay@, i as int, pat@),
{
    let hn = hay.len();
    let mut k: usize = 0;
    while k < pat.len()
        invariant
            0 <= k <= pat@.len(),
            hn == hay@.len(),
            i + pat@.len() <= hay@.len(),
            forall|t: int| 0 <= t < k ==> hay@[i + t] == pat@[t],
        decreases pat@.len() - k,
    {
        if hay[i + k] != pat[k] {
            proof {
                assert(hay@.subrange(i as int, i + pat@.len())[k as int] != pat@[k as int]);
            }
            return false;
        }
        k += 1;
    }
    proof {
        assert(hay@.subrange(i as int, i + pat@.len()) =~= pat@);
    }
    true
}

/// First occurrence of `pat` in `hay` at or after `from`.
fn find_pat_u8(hay: &Vec<u8>, pat: &Vec<u8>, from: usize) -> (r: Option<usize>)
    requires
        pat@.len() >= 1,
    ensures
        match r {
            Some(i) => find_pat(hay@, pat@, from as int) == Some(i as int),
            None => find_pat(hay@, pat@, from as int) is None,
        },
{
    if pat.len() > hay.len() || from > hay.len() - pat.len() {
        return None;
    }
    let hn = hay.len();
    let limit = hn - pat.len();
    let mut i = from;
    while i <= limit
        invariant
            from <= i,
            i <= limit + 1,
            hn == hay@.len(),
            1 <= pat@.len(),
            limit == hay@.len() - pat@.len(),
            pat@.len() <= hay@.len(),
            find_pat(hay@, pat@, from as int) == find_pat(hay@, pat@, i as int),
        decreases limit + 1 - i,
    {
        if match_at(hay, pat, i) {
            return Some(i);
        }
        proof {
            assert(find_pat(hay@, pat@, i as int) == find_pat(hay@, pat@, i as int + 1));
        }
        i += 1;
    }
    None
}

/// The value of a digit run, capped detection for ports.
fn digits_val_capped(line: &Vec<u8>, lo: usize, hi: usize) -> (r: Option<u16>)
    requires
        lo <= hi <= line@.len(),
        forall|i: int| lo <= i < hi ==> is_digit(line@[i]),
    ensures
        match r {
            Some(v) => digits_val(line@.subrange(lo as int, hi as int)) == v as int,
            None => digits_val(line@.subrange(lo as int, hi as int)) > 65535,
        },
{
    let mut acc: u32 = 0;
    let mut k = lo;
    proof {
        assert(line@.subrange(lo as int, lo as int) =~= Seq::<u8>::empty());
    }
    while k < hi
        invariant
            lo <= k <= hi <= line@.len(),
            forall|i: int| lo <= i < hi ==> is_digit(line@[i]),
            acc <= 65535 ==> acc as int == digits_val(line@.subrange(lo as int, k as int)),
            acc > 65535 ==> digits_val(line@.subrange(lo as int, k as int)) > 65535,
            acc <= 655359,
        decreases hi - k,
    {
        let d = line[k];
        proof {
            assert(line@.subrange(lo as int, k as int + 1).drop_last() =~= line@.subrange(
                lo as int,
                k as int,
            ));
            assert(line@.subrange(lo as int, k as int + 1).last() == line@[k as int]);
        }
        if acc > 65535 {
            proof {
                assert(digits_val(line@.subrange(lo as int, k as int + 1)) >= digits_val(
                    line@.subrange(lo as int, k as int),
                ) * 10 + 0);
            }
            k += 1;
        } else {
            acc = acc * 10 + ((d - 48) as u32);
            k += 1;
        }
    }
    if acc <= 65535 {
        Some(acc as u16)
    } else {
        None
    }
}

/// Whether every byte of the range is a digit, with the octet rules.
fn octet_val(part: &Vec<u8>) -> (r: Option<u8>)
    ensures
        r is Some <==> octet_ok(part@),
        r is Some ==> digits_val(part@) == r->Some_0 as int,
{
    let n = part.len();
    if n < 1 || n > 3 {
        return None;
    }
    let mut k: usize = 0;
    while k < n
        invariant
            0 <= k <= n,
            n == part@.len(),
            forall|i: int| 0 <= i < k ==> is_digit(part@[i]),
        decreases n - k,
    {
        let b = part[k];
        if b < 48 || b > 57 {
            return None;
        }
        k += 1;
    }
    if n > 1 && part[0] == 48 {
        return None;
    }
    proof {
        assert(part@.subrange(0, 0) =~= Seq::<u8>::empty());
    }
    let mut acc: u16 = 0;
    let mut j: usize = 0;
    while j < n
        invariant
            0 <= j <= n,
            n == part@.len(),
            n <= 3,
            forall|i: int| 0 <= i < n ==> is_digit(part@[i]),
            acc as int == digits_val(part@.subrange(0, j as int)),
            j == 0 ==> acc == 0,
            j == 1 ==> acc <= 9,
            j == 2 ==> acc <= 99,
            j == 3 ==> acc <= 999,
        decreases n - j,
    {
        proof {
            assert(part@.subrange(0, j as int + 1).drop_last() =~= part@.subrange(0, j as int));
            assert(part@.subrange(0, j as int + 1).last() == part@[j as int]);
        }
        acc = acc * 10 + ((part[j] - 48) as u16);
        j += 1;
    }
    proof {
        assert(part@.subrange(0, n as int) =~= part@);
    }
    if acc <= 255 {
        Some(acc as u8)
    } else {
        None
    }
}

/// Split a byte range on a separator.
fn split_bytes(v: &Vec<u8>, lo: usize, hi: usize, sep: u8) -> (parts: Vec<Vec<u8>>)
    requires
        lo <= hi <= v@.len(),
    ensures
        views_of(parts@) == split_seq(v@.subrange(lo as int, hi as int), sep),
{
    let ghost s = v@.subrange(lo as int, hi as int);
    let mut parts: Vec<Vec<u8>> = Vec::new();
    let mut cur: Vec<u8> = Vec::new();
    let ghost mut start: int = 0;
    let mut i = lo;
    proof {
        assert(views_of(parts@) =~= Seq::<Seq<u8>>::empty());
        assert(cur@ =~= s.subrange(0, 0));
        assert(s.skip(0) =~= s);
        assert(views_of(parts@) + split_seq(s, sep) =~= split_seq(s, sep));
    }
    while i < hi
        invariant
            lo <= i <= hi <= v@.len(),
            s == v@.subrange(lo as int, hi as int),
            0 <= start <= i - lo,
            cur@ == s.subrange(start, i - lo),
            forall|j: int| start <= j < i - lo ==> s[j] != sep,
            views_of(parts@) + split_seq(s.skip(start), sep) == split_seq(s, sep),
        decreases hi - i,
    {
        let b = v[i];
        proof {
            assert(s[i - lo] == v@[i as int]);
        }
        if b == sep {
            proof {
                lemma_split_step(s.skip(start), sep, i - lo - start);
                assert(s.skip(start).take(i - lo - start) =~= s.subrange(start, i - lo));
                assert(s.skip(start).skip(i - lo - start + 1) =~= s.skip(i - lo + 1));
            }
            parts.push(cur);
            cur = Vec::new();
            proof {
                assert(views_of(parts@) =~= views_of(parts@.drop_last()).push(parts@.last()@));
                assert(views_of(parts@) + split_seq(s.skip(i - lo + 1), sep) =~= split_seq(
                    s,
                    sep,
                ));
                start = i - lo + 1;
                assert(cur@ =~= s.subrange(start, i - lo + 1));
            }
        } else {
            cur.push(b);
            proof {
                assert(cur@ =~= s.subrange(start, i - lo + 1));
            }
        }
        i += 1;
    }
    proof {
        lemma_split_whole(s.skip(start), sep);
        assert(s.skip(start) =~= s.subrange(start, s.len() as int));
    }
    parts.push(cur);
    proof {
        assert(views_of(parts@) =~= views_of(parts@.drop_last()).push(parts@.last()@));
        assert(views_of(parts@) =~= split_seq(s, sep));
    }
    parts
}

/// Parse the address run as a strict dotted quad.
fn parse_ipv4_range(line: &Vec<u8>, lo: usize, hi: usize) -> (r: Option<Ipv4>)
    requires
        lo <= hi <= line@.len(),
    ensures
        r == parse_ipv4(line@.subrange(lo as int, hi as int)),
{
    let parts = split_bytes(line, lo, hi, 46);
    let ghost sparts = split_seq(line@.subrange(lo as int, hi as int), 46u8);
    proof {
        assert(views_of(parts@).len() == parts@.len());
    }
    if parts.len() != 4 {
        return None;
    }
    proof {
        assert(parts@[0]@ == sparts[0]);
        assert(parts@[1]@ == sparts[1]);
        assert(parts@[2]@ == sparts[2]);
        assert(parts@[3]@ == sparts[3]);
    }
    let a = octet_val(&parts[0]);
    let b = octet_val(&parts[1]);
    let c = octet_val(&parts[2]);
    let d = octet_val(&parts[3]);
    match (a, b, c, d) {
        (Some(a), Some(b), Some(c), Some(d)) => Some(Ipv4 { a, b, c, d }),
        _ => None,
    }
}

/// Extract the endpoint a log line announces, if any.
pub fn parse_log_line(line: &Vec<u8>) -> (r: Option<LogMessage>)
    ensures
        r == line_endpoint(line@),
{
    let n = line.len();
    let marker = marker_vec();
    let tag = address_tag_vec();
    let m = match find_pat_u8(line, &marker, 0) {
        None => {
            return None;
        },
        Some(m) => m,
    };
    proof {
        lemma_find_pat_bounds(line@, marker@, 0);
    }
    let a = match find_pat_u8(line, &tag, m + marker.len()) {
        None => {
            return None;
        },
        Some(a) => a,
    };
    proof {
        lemma_find_pat_bounds(line@, tag@, m + marker@.len());
    }
    let p = a + tag.len();
    if p >= line.len() {
        return None;
    }
    let w = line[p];
    if !(w == 32 || w == 9 || w == 10 || w == 13 || w == 11 || w == 12) {
        return None;
    }
    let q = p + 1;
    // scan the address run
    let mut r_end = q;
    while r_end < line.len() && (line[r_end] == 46 || (48 <= line[r_end] && line[r_end] <= 57))
        invariant
            q <= r_end <= line@.len(),
            ip_run_end(line@, q as int) == ip_run_end(line@, r_end as int),
        decreases line@.len() - r_end,
    {
        r_end += 1;
    }
    proof {
        assert(ip_run_end(line@, q as int) == r_end as int);
    }
    if r_end == q || r_end >= line.len() {
        return None;
    }
    if line[r_end] != 58 {
        return None;
    }
    // scan the port digits
    let mut e = r_end + 1;
    while e < line.len() && 48 <= line[e] && line[e] <= 57
        invariant
            r_end + 1 <= e <= line@.len(),
            digit_run_end(line@, r_end as int + 1) == digit_run_end(line@, e as int),
            forall|i: int| r_end + 1 <= i < e ==> is_digit(line@[i]),
        decreases line@.len() - e,
    {
        e += 1;
    }
    proof {
        assert(digit_run_end(line@, r_end as int + 1) == e as int);
    }
    if e == r_end + 1 {
        return None;
    }
    let port = match digits_val_capped(line, r_end + 1, e) {
        None => {
            return None;
        },
        Some(v) => v,
    };
    let ip = parse_ipv4_range(line, q, r_end);
    Some(LogMessage { ip, port })
}

} // verus!
