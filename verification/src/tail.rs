//! Offset-tracked reading of a growing log file. The watcher hands this
//! module the bytes appended since the last read; the module splits them
//! into lines, extracts endpoint announcements in file order, and advances
//! the offset. A file that did not grow yields nothing; a file that shrank
//! is a lost watch session and must be reported, not skipped.
use vstd::prelude::*;

use crate::AppError;
use crate::logline::{LogMessage, line_endpoint, parse_log_line};
use crate::scan::{split_seq, lemma_split_len_pos, lemma_split_step, views_of};

verus! {

/// Where the next read of the watched file starts. The offset never moves
/// backwards within one watch session.
#[derive(Clone, Copy, PartialEq, Eq, Structural, Debug)]
pub struct TailState {
    pub offset: u64,
}

/// Strip one trailing carriage return, as line-based reading does for lines
/// that ended in `\r\n`.
pub open spec fn strip_cr(l: Seq<u8>) -> Seq<u8> {
    if l.len() > 0 && l.last() == 13 {
        l.drop_last()
    } else {
        l
    }
}

/// The lines of a chunk of bytes: split on `\n`, strip `\r` before each
/// `\n`, and keep a trailing unterminated line as written.
pub open spec fn lines_of(b: Seq<u8>) -> Seq<Seq<u8>> {
    let parts = split_seq(b, 10u8);
    if parts.last().len() == 0 {
        parts.drop_last().map_values(|l: Seq<u8>| strip_cr(l))
    } else {
        parts.drop_last().map_values(|l: Seq<u8>| strip_cr(l)).push(parts.last())
    }
}

/// The endpoint announcements of a sequence of lines, in order.
pub open spec fn msgs_of_lines(ls: Seq<Seq<u8>>) -> Seq<LogMessage>
    decreases ls.len(),
{
    if ls.len() == 0 {
        Seq::empty()
    } else {
        let rest = msgs_of_lines(ls.drop_last());
        match line_endpoint(ls.last()) {
            Some(m) => rest.push(m),
            None => rest,
        }
    }
}

/// Every endpoint announcement in a chunk of bytes, in file order.
pub open spec fn messages_of(b: Seq<u8>) -> Seq<LogMessage> {
    msgs_of_lines(lines_of(b))
}

/// Split a whole byte vector into its lines.
fn lines_vec(b: &Vec<u8>) -> (ls: Vec<Vec<u8>>)
    ensures
        views_of(ls@) == lines_of(b@),
{
    let n = b.len();
    let ghost s = b@;
    let ghost sp = split_seq(b@, 10u8);
    let mut parts: Vec<Vec<u8>> = Vec::new();
    let mut cur: Vec<u8> = Vec::new();
    let ghost mut done: Seq<Seq<u8>> = Seq::empty();
    let ghost mut start: int = 0;
    let mut i: usize = 0;
    proof {
        assert(cur@ =~= s.subrange(0, 0));
        assert(s.skip(0) =~= s);
        assert(done + split_seq(s, 10u8) =~= split_seq(s, 10u8));
        assert(views_of(parts@) =~= done.map_values(|l: Seq<u8>| strip_cr(l)));
    }
    while i < n
        invariant
            0 <= i <= n,
            n == s.len(),
            s == b@,
            sp == split_seq(b@, 10u8),
            0 <= start <= i as int,
            cur@ == s.subrange(start, i as int),
            forall|j: int| start <= j < i as int ==> s[j] != 10u8,
            sp == done + split_seq(s.skip(start), 10u8),
            views_of(parts@) == done.map_values(|l: Seq<u8>| strip_cr(l)),
        decreases n - i,
    {
        let c = b[i];
        if c == 10 {
            proof {
                crate::scan::lemma_split_step(s.skip(start), 10u8, i as int - start);
                assert(s.skip(start).take(i as int - start) =~= s.subrange(start, i as int));
                assert(s.skip(start).skip(i as int - start + 1) =~= s.skip(i as int + 1));
            }
            // a line ends here: strip one trailing carriage return
            let ghost raw = cur@;
            if cur.len() > 0 && cur[cur.len() - 1] == 13 {
                cur.pop();
            }
            proof {
                assert(cur@ =~= strip_cr(raw));
            }
            parts.push(cur);
            cur = Vec::new();
            proof {
                let f = |l: Seq<u8>| strip_cr(l);
                assert(views_of(parts@) =~= views_of(parts@.drop_last()).push(parts@.last()@));
                assert(done.push(raw).map_values(f) =~= done.map_values(f).push(strip_cr(raw)));
                done = done.push(raw);
                assert(sp =~= done + split_seq(s.skip(i as int + 1), 10u8));
                start = i as int + 1;
                assert(cur@ =~= s.subrange(start, i as int + 1));
            }
        } else {
            cur.push(c);
            proof {
                assert(cur@ =~= s.subrange(start, i as int + 1));
            }
        }
        i += 1;
    }
    proof {
        crate::scan::lemma_split_whole(s.skip(start), 10u8);
        assert(s.skip(start) =~= s.subrange(start, n as int));
        assert(sp =~= done + seq![s.subrange(start, n as int)]);
        assert(sp.last() == s.subrange(start, n as int));
        assert(sp.drop_last() =~= done);
        assert(sp.last() == cur@);
    }
    if cur.len() > 0 {
        parts.push(cur);
        proof {
            assert(views_of(parts@) =~= views_of(parts@.drop_last()).push(parts@.last()@));
            assert(views_of(parts@) =~= lines_of(b@));
        }
    } else {
        proof {
            assert(views_of(parts@) =~= lines_of(b@));
        }
    }
    parts
}

/// The endpoint announcements of a whole chunk, in file order.
fn messages_vec(b: &Vec<u8>) -> (msgs: Vec<LogMessage>)
    ensures
        msgs@ == messages_of(b@),
{
    let lines = lines_vec(b);
    let n = lines.len();
    proof {
        assert(views_of(lines@).len() == lines@.len());
    }
    let mut msgs: Vec<LogMessage> = Vec::new();
    let mut i: usize = 0;
    proof {
        assert(views_of(lines@).take(0) =~= Seq::<Seq<u8>>::empty());
    }
    while i < n
        invariant
            0 <= i <= n,
            n == lines@.len(),
            views_of(lines@) == lines_of(b@),
            msgs@ == msgs_of_lines(views_of(lines@).take(i as int)),
        decreases n - i,
    {
        proof {
            assert(views_of(lines@).take(i as int + 1).drop_last() =~= views_of(lines@).take(
                i as int,
            ));
            assert(views_of(lines@).take(i as int + 1).last() == lines@[i as int]@);
        }
        match parse_log_line(&lines[i]) {
            Some(m) => { msgs.push(m); },
            None => {},
        }
        i += 1;
    }
    proof {
        assert(views_of(lines@).take(n as int) =~= views_of(lines@));
    }
    msgs
}

/// Process one modification notice: `current_size` is the file's length now,
/// `new_bytes` the bytes from the old offset to that length. A shrunken
/// file ends the watch session; an unchanged one yields nothing; a grown
/// one yields its new announcements, in file order, and advances the offset.
pub fn read_new_lines(state: &mut TailState, current_size: u64, new_bytes: &Vec<u8>) -> (r: Result<
    Vec<LogMessage>,
    AppError,
>)
    requires
        current_size > old(state).offset ==> new_bytes@.len() == current_size - old(state).offset,
    ensures
        current_size < old(state).offset ==> r == Err::<Vec<LogMessage>, AppError>(
            AppError::WatchSessionLost,
        ) && *final(state) == *old(state),
        current_size == old(state).offset ==> r is Ok && r->Ok_0@ == Seq::<LogMessage>::empty()
            && *final(state) == *old(state),
        current_size > old(state).offset ==> r is Ok && r->Ok_0@ == messages_of(new_bytes@)
            && final(state).offset == current_size,
        final(state).offset >= old(state).offset,
{
    if current_size < state.offset {
        return Err(AppError::WatchSessionLost);
    }
    if current_size == state.offset {
        let empty: Vec<LogMessage> = Vec::new();
        return Ok(empty);
    }
    let msgs = messages_vec(new_bytes);
    state.offset = current_size;
    Ok(msgs)
}

/// Announcements of concatenated line sequences concatenate.
proof fn lemma_msgs_of_lines_concat(l1: Seq<Seq<u8>>, l2: Seq<Seq<u8>>)
    ensures
        msgs_of_lines(l1 + l2) == msgs_of_lines(l1) + msgs_of_lines(l2),
    decreases l2.len(),
{
    if l2.len() == 0 {
        assert(l1 + l2 =~= l1);
        assert(msgs_of_lines(l1) + msgs_of_lines(l2) =~= msgs_of_lines(l1));
    } else {
        lemma_msgs_of_lines_concat(l1, l2.drop_last());
        assert((l1 + l2).drop_last() =~= l1 + l2.drop_last());
        assert((l1 + l2).last() == l2.last());
        match line_endpoint(l2.last()) {
            Some(m) => {
                assert((msgs_of_lines(l1) + msgs_of_lines(l2.drop_last())).push(m)
                    =~= msgs_of_lines(l1) + msgs_of_lines(l2.drop_last()).push(m));
            },
            None => {},
        }
    }
}

/// The lines of two chunks split at a line boundary are the lines of the
/// first followed by the lines of the second.
proof fn lemma_lines_concat(a: Seq<u8>, b: Seq<u8>)
    requires
        a.len() == 0 || a.last() == 10u8,
    ensures
        lines_of(a + b) =~= lines_of(a) + lines_of(b),
{
    let f = |l: Seq<u8>| strip_cr(l);
    if a.len() == 0 {
        assert(a + b =~= b);
        assert(split_seq(a, 10u8) =~= seq![Seq::<u8>::empty()]);
        assert(lines_of(a) =~= Seq::<Seq<u8>>::empty());
        assert(lines_of(a) + lines_of(b) =~= lines_of(b));
    } else {
        crate::scan::lemma_split_concat(a, b, 10u8);
        crate::scan::lemma_split_ends_sep(a, 10u8);
        lemma_split_len_pos(b, 10u8);
        let pa = split_seq(a, 10u8);
        let pb = split_seq(b, 10u8);
        let pab = split_seq(a + b, 10u8);
        assert(pab =~= pa.drop_last() + pb);
        assert(pab.len() == pa.len() - 1 + pb.len());
        assert(pab.last() == pb.last());
        assert(pab.drop_last() =~= pa.drop_last() + pb.drop_last());
        assert((pa.drop_last() + pb.drop_last()).map_values(f) =~= pa.drop_last().map_values(f)
            + pb.drop_last().map_values(f));
        assert(lines_of(a) =~= pa.drop_last().map_values(f));
        if pb.last().len() == 0 {
            assert(lines_of(a + b) =~= pab.drop_last().map_values(f));
        } else {
            assert(lines_of(a + b) =~= pab.drop_last().map_values(f).push(pab.last()));
            assert((pa.drop_last().map_values(f) + pb.drop_last().map_values(f)).push(pb.last())
                =~= pa.drop_last().map_values(f) + pb.drop_last().map_values(f).push(pb.last()));
        }
    }
}

/// The number of lines in a sequence that announce an endpoint.
pub open spec fn announcing_count(ls: Seq<Seq<u8>>) -> nat
    decreases ls.len(),
{
    if ls.len() == 0 {
        0
    } else {
        announcing_count(ls.drop_last()) + if line_endpoint(ls.last()) is Some {
            1nat
        } else {
            0nat
        }
    }
}

/// Exactly one update per announcing line: a chunk with N announcing lines
/// among any number of others yields exactly N endpoint updates.
pub proof fn lemma_one_update_per_matching_line(ls: Seq<Seq<u8>>)
    ensures
        msgs_of_lines(ls).len() == announcing_count(ls),
    decreases ls.len(),
{
    if ls.len() == 0 {
    } else {
        lemma_one_update_per_matching_line(ls.drop_last());
    }
}

/// Chunked reads agree with one read of the whole: when the boundary
/// between two successively read chunks falls at a line boundary, the
/// announcements of the two chunks, one after the other, are exactly the
/// announcements of the concatenated bytes, in the same order.
pub proof fn lemma_messages_chunked(a: Seq<u8>, b: Seq<u8>)
    requires
        a.len() == 0 || a.last() == 10u8,
    ensures
        messages_of(a + b) == messages_of(a) + messages_of(b),
{
    lemma_lines_concat(a, b);
    lemma_msgs_of_lines_concat(lines_of(a), lines_of(b));
    assert(msgs_of_lines(lines_of(a + b)) == msgs_of_lines(lines_of(a) + lines_of(b)));
}

/// One candidate session folder: its creation time and its path.
#[derive(Clone, PartialEq, Eq, Debug)]
pub struct FolderEntry {
    pub created: u64,
    pub path: String,
}

/// The active session folder: the entry with the newest creation time,
/// the last such entry when several tie. `None` only for an empty listing.
pub fn get_newest_folder(entries: &Vec<FolderEntry>) -> (r: Option<usize>)
    ensures
        (entries@.len() == 0) <==> (r is None),
        r is Some ==> 0 <= r->Some_0 < entries@.len(),
        r is Some ==> forall|j: int|
            0 <= j < entries@.len() ==> (#[trigger] entries@[j]).created <= entries@[
                r->Some_0 as int
            ].created,
        r is Some ==> forall|j: int|
            r->Some_0 < j < entries@.len() ==> (#[trigger] entries@[j]).created < entries@[
                r->Some_0 as int
            ].created,
{
    let n = entries.len();
    if n == 0 {
        return None;
    }
    let mut best: usize = 0;
    let mut i: usize = 1;
    while i < n
        invariant
            0 <= best < i <= n,
            n == entries@.len(),
            forall|j: int| 0 <= j < i ==> (#[trigger] entries@[j]).created <= entries@[
                best as int
            ].created,
            forall|j: int| best < j < i ==> (#[trigger] entries@[j]).created < entries@[
                best as int
            ].created,
        decreases n - i,
    {
        if entries[i].created >= entries[best].created {
            best = i;
        }
        i += 1;
    }
    Some(best)
}

} // verus!
