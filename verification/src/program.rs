//! The firewall-based reconnect fallback: block the game's outbound
//! traffic briefly so the client drops its connection, then unblock. The
//! shell commands themselves are the application's business; this module
//! decides the step sequence, reads the command output that says whether
//! the blocking rule exists, and picks the executable path out of the
//! process-query output. Command output arrives in the platform's legacy
//! Simplified-Chinese encoding and is decoded through `textcode`.
use vstd::prelude::*;

use crate::hotkey::is_ws_char;
use crate::scan::{chars_to_string, contains_at, find_pat, lemma_find_pat_bounds, lemma_find_pat_some};

verus! {

/// The decoded text of GB2312 bytes, as `textcode`'s decoder produces it.
pub uninterp spec fn gb2312_text(b: Seq<u8>) -> Seq<char>;

/// Relies on textcode's GB2312 decoder (`textcode::decode::<Gb2312>`): the
/// decoded text is a function of the input bytes alone.
#[verifier::external_body]
fn gb2312_decode_chars(b: &Vec<u8>) -> (r: Vec<char>)
    ensures
        r@ == gb2312_text(b@),
{
    textcode::decode::<textcode::Gb2312>(b.as_slice()).chars().collect()
}

/// The name of the blocking rule, as it appears in the rule listing.
pub open spec fn fw_marker() -> Seq<char> {
    seq!['C', 'u', 'r', 't', 'i', 'o', 'n', '_', 'L', 'S']
}

fn fw_marker_vec() -> (v: Vec<char>)
    ensures
        v@ == fw_marker(),
{
    let mut v: Vec<char> = Vec::new();
    v.push('C');
    v.push('u');
    v.push('r');
    v.push('t');
    v.push('i');
    v.push('o');
    v.push('n');
    v.push('_');
    v.push('L');
    v.push('S');
    proof {
        assert(v@ =~= fw_marker());
    }
    v
}

fn match_chars_at(hay: &Vec<char>, pat: &Vec<char>, i: usize) -> (r: bool)
    requires
        i + pat@.len() <= hay@.len(),
    ensures
        r == contains_at(hay@, i as int, pat@),
{
    let hn = hay.len();
    let mut k: usize = 0;
    while k < pat.len()
        invariant
            0 <= k <= pat@.len(),
            hn == hay@.len(),
            i + pat@.len() <= hay@.len(),
            forall|t: int| 0 <= t < k ==> hay@[i + t] == pat@[t],
        decreases pat@.len() - k,
    {
        if hay[i + k] != pat[k] {
            proof {
                assert(hay@.subrange(i as int, i + pat@.len())[k as int] != pat@[k as int]);
            }
            return false;
        }
        k += 1;
    }
    proof {
        assert(hay@.subrange(i as int, i + pat@.len()) =~= pat@);
    }
    true
}

fn contains_chars(hay: &Vec<char>, pat: &Vec<char>) -> (r: bool)
    requires
        pat@.len() >= 1,
    ensures
        r == crate::scan::contains_sub(hay@, pat@),
{
    let hn = hay.len();
    if pat.len() > hn {
        return false;
    }
    let limit = hn - pat.len();
    let mut i: usize = 0;
    while i <= limit
        invariant
            0 <= i <= limit + 1,
            hn == hay@.len(),
            1 <= pat@.len() <= hay@.len(),
            limit == hay@.len() - pat@.len(),
            forall|j: int| 0 <= j < i ==> !contains_at(hay@, j, pat@),
        decreases limit + 1 - i,
    {
        if match_chars_at(hay, pat, i) {
            proof {
                lemma_find_pat_some(hay@, pat@, 0, i as int);
            }
            return true;
        }
        i += 1;
    }
    proof {
        if find_pat(hay@, pat@, 0) is Some {
            lemma_find_pat_bounds(hay@, pat@, 0);
        }
    }
    false
}

/// Whether the rule listing output mentions the blocking rule. The raw
/// command output is decoded from GB2312 first; the rule name is searched
/// in the decoded text.
pub fn is_fw_rule(output: &Vec<u8>) -> (r: bool)
    ensures
        r == crate::scan::contains_sub(gb2312_text(output@), fw_marker()),
{
    let text = gb2312_decode_chars(output);
    let marker = fw_marker_vec();
    contains_chars(&text, &marker)
}

/// The whitespace-separated fields of a text, in order; no field is empty.
pub open spec fn ws_fields(s: Seq<char>) -> Seq<Seq<char>>
    decreases s.len(),
{
    if s.len() == 0 {
        Seq::empty()
    } else if is_ws_char(s[0]) {
        ws_fields(s.drop_first())
    } else {
        let rest = ws_fields(s.drop_first());
        if s.len() > 1 && !is_ws_char(s[1]) {
            seq![seq![s[0]] + rest[0]] + rest.drop_first()
        } else {
            seq![seq![s[0]]] + rest
        }
    }
}

/// A maximal run of non-whitespace characters is the first field.
proof fn lemma_ws_fields_run(s: Seq<char>, e: int)
    requires
        0 < e <= s.len(),
        forall|j: int| 0 <= j < e ==> !is_ws_char(s[j]),
        e == s.len() || is_ws_char(s[e]),
    ensures
        ws_fields(s) =~= seq![s.take(e)] + ws_fields(s.skip(e)),
    decreases e,
{
    if e == 1 {
        if s.len() == 1 {
            assert(s.drop_first() =~= Seq::<char>::empty());
            assert(ws_fields(Seq::<char>::empty()) =~= Seq::<Seq<char>>::empty());
            assert(ws_fields(s) =~= seq![seq![s[0]]]);
            assert(s.take(1) =~= seq![s[0]]);
            assert(s.skip(1) =~= Seq::<char>::empty());
        } else {
            assert(is_ws_char(s[1]));
            assert(s.take(1) =~= seq![s[0]]);
            assert(s.drop_first() =~= s.skip(1));
        }
    } else {
        lemma_ws_fields_run(s.drop_first(), e - 1);
        assert(!is_ws_char(s[1]));
        let rest = ws_fields(s.drop_first());
        assert(s.drop_first().take(e - 1) =~= s.take(e).drop_first());
        assert(s.drop_first().skip(e - 1) =~= s.skip(e));
        assert(rest[0] == s.take(e).drop_first());
        assert(seq![s[0]] + rest[0] =~= s.take(e));
        assert(rest.drop_first() =~= ws_fields(s.skip(e)));
    }
}

/// The whitespace-separated fields of a character vector.
fn fields_vec(cs: &Vec<char>) -> (fields: Vec<Vec<char>>)
    ensures
        crate::scan::views_of(fields@) == ws_fields(cs@),
{
    let n = cs.len();
    let ghost s = cs@;
    let mut fields: Vec<Vec<char>> = Vec::new();
    let mut i: usize = 0;
    proof {
        assert(crate::scan::views_of(fields@) =~= Seq::<Seq<char>>::empty());
        assert(s.skip(0) =~= s);
        assert(crate::scan::views_of(fields@) + ws_fields(s) =~= ws_fields(s));
    }
    while i < n
        invariant
            0 <= i <= n,
            n == s.len(),
            s == cs@,
            crate::scan::views_of(fields@) + ws_fields(s.skip(i as int)) == ws_fields(s),
        decreases n - i,
    {
        let c = cs[i];
        if c == ' ' || c == '\t' || c == '\n' || c == '\r' || c as u32 == 11 || c as u32 == 12 {
            proof {
                assert(s.skip(i as int).drop_first() =~= s.skip(i as int + 1));
            }
            i += 1;
        } else {
            // collect one field
            let st = i;
            let mut cur: Vec<char> = Vec::new();
            proof {
                assert(cur@ =~= s.subrange(st as int, st as int));
            }
            while i < n && !(cs[i] == ' ' || cs[i] == '\t' || cs[i] == '\n' || cs[i] == '\r'
                || cs[i] as u32 == 11 || cs[i] as u32 == 12)
                invariant
                    st <= i <= n,
                    n == s.len(),
                    s == cs@,
                    cur@ == s.subrange(st as int, i as int),
                    forall|j: int| st <= j < i as int ==> !is_ws_char(s[j]),
                    st < n,
                    !is_ws_char(s[st as int]),
                decreases n - i,
            {
                cur.push(cs[i]);
                proof {
                    assert(cur@ =~= s.subrange(st as int, i as int + 1));
                }
                i += 1;
            }
            proof {
                lemma_ws_fields_run(s.skip(st as int), i as int - st);
                assert(s.skip(st as int).take(i as int - st) =~= s.subrange(st as int, i as int));
                assert(s.skip(st as int).skip(i as int - st) =~= s.skip(i as int));
            }
            fields.push(cur);
            proof {
                assert(crate::scan::views_of(fields@) =~= crate::scan::views_of(
                    fields@.drop_last(),
                ).push(fields@.last()@));
                assert(crate::scan::views_of(fields@) + ws_fields(s.skip(i as int)) =~= ws_fields(
                    s,
                ));
            }
        }
    }
    proof {
        assert(s.skip(n as int) =~= Seq::<char>::empty());
        assert(ws_fields(Seq::<char>::empty()) =~= Seq::<Seq<char>>::empty());
        assert(crate::scan::views_of(fields@) =~= ws_fields(s));
    }
    fields
}

/// Pick the executable path out of the process-query output: the output is
/// decoded from GB2312, split on whitespace, and the second field is the
/// path (the first is the column heading). `None` when the output has no
/// second field.
pub fn parse_path_output(output: &Vec<u8>) -> (r: Option<String>)
    ensures
        ws_fields(gb2312_text(output@)).len() >= 2 ==> r is Some && r->Some_0@ == ws_fields(
            gb2312_text(output@),
        )[1],
        ws_fields(gb2312_text(output@)).len() < 2 ==> r is None,
{
    let text = gb2312_decode_chars(output);
    let fields = fields_vec(&text);
    proof {
        assert(crate::scan::views_of(fields@).len() == fields@.len());
    }
    if fields.len() < 2 {
        return None;
    }
    proof {
        assert(fields@[1]@ == ws_fields(gb2312_text(output@))[1]);
    }
    Some(chars_to_string(&fields[1]))
}

/// One step of the firewall-based reconnect.
#[derive(Clone, Copy, PartialEq, Eq, Structural, Debug)]
pub enum FirewallStep {
    /// Create the (disabled) blocking rule for the game's executable.
    CreateRule,
    /// Enable the rule: outbound traffic is now blocked.
    EnableRule,
    /// Wait long enough for the client to drop the connection.
    Wait,
    /// Disable the rule: traffic flows again and the client reconnects.
    DisableRule,
}

/// The steps of one firewall-based reconnect: create the rule first if it
/// does not exist yet, then block, wait, unblock.
pub fn start(rule_exists: bool) -> (r: Vec<FirewallStep>)
    ensures
        rule_exists ==> r@ =~= seq![
            FirewallStep::EnableRule,
            FirewallStep::Wait,
            FirewallStep::DisableRule,
        ],
        !rule_exists ==> r@ =~= seq![
            FirewallStep::CreateRule,
            FirewallStep::EnableRule,
            FirewallStep::Wait,
            FirewallStep::DisableRule,
        ],
{
    let mut r: Vec<FirewallStep> = Vec::new();
    if !rule_exists {
        r.push(FirewallStep::CreateRule);
    }
    r.push(FirewallStep::EnableRule);
    r.push(FirewallStep::Wait);
    r.push(FirewallStep::DisableRule);
    r
}

} // verus!
