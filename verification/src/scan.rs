//! Small scanning helpers over sequences: substring search, splitting on a
//! separator, trimming, case folding and decimal digit runs. These are the
//! building blocks of the log-line grammar and the hotkey syntax.
use vstd::prelude::*;
use vstd::string::StrSliceExecFns;

verus! {

/// `pat` occurs in `s` starting at position `i`.
pub open spec fn contains_at<T>(s: Seq<T>, i: int, pat: Seq<T>) -> bool {
    0 <= i && i + pat.len() <= s.len() && s.subrange(i, i + pat.len()) == pat
}

/// Index of the first occurrence of `pat` in `s` at or after `from`.
pub open spec fn find_pat<T>(s: Seq<T>, pat: Seq<T>, from: int) -> Option<int>
    decreases s.len() + 1 - from,
{
    if from < 0 || from + pat.len() > s.len() {
        None
    } else if contains_at(s, from, pat) {
        Some(from)
    } else {
        find_pat(s, pat, from + 1)
    }
}

/// `pat` occurs somewhere in `s`.
pub open spec fn contains_sub<T>(s: Seq<T>, pat: Seq<T>) -> bool {
    find_pat(s, pat, 0) is Some
}

pub proof fn lemma_find_pat_bounds<T>(s: Seq<T>, pat: Seq<T>, from: int)
    requires
        0 <= from,
        find_pat(s, pat, from) is Some,
    ensures
        from <= find_pat(s, pat, from)->Some_0,
        find_pat(s, pat, from)->Some_0 + pat.len() <= s.len(),
        contains_at(s, find_pat(s, pat, from)->Some_0, pat),
        forall|j: int| from <= j < find_pat(s, pat, from)->Some_0 ==> !contains_at(s, j, pat),
    decreases s.len() + 1 - from,
{
    if from < 0 || from + pat.len() > s.len() {
    } else if contains_at(s, from, pat) {
    } else {
        lemma_find_pat_bounds(s, pat, from + 1);
    }
}

/// If `pat` occurs at `j >= from`, the search from `from` finds something.
pub proof fn lemma_find_pat_some<T>(s: Seq<T>, pat: Seq<T>, from: int, j: int)
    requires
        0 <= from <= j,
        contains_at(s, j, pat),
    ensures
        find_pat(s, pat, from) is Some,
    decreases s.len() + 1 - from,
{
    if contains_at(s, from, pat) {
    } else if from < j {
        lemma_find_pat_some(s, pat, from + 1, j);
    }
}

/// Split `s` on the separator `sep`. Always yields at least one part; the
/// separators themselves are not part of any part.
pub open spec fn split_seq<T>(s: Seq<T>, sep: T) -> Seq<Seq<T>>
    decreases s.len(),
{
    if s.len() == 0 {
        seq![Seq::<T>::empty()]
    } else if s[0] == sep {
        seq![Seq::<T>::empty()] + split_seq(s.drop_first(), sep)
    } else {
        let rest = split_seq(s.drop_first(), sep);
        seq![seq![s[0]] + rest[0]] + rest.drop_first()
    }
}

pub proof fn lemma_split_len_pos<T>(s: Seq<T>, sep: T)
    ensures
        split_seq(s, sep).len() >= 1,
    decreases s.len(),
{
    if s.len() == 0 {
    } else {
        lemma_split_len_pos(s.drop_first(), sep);
    }
}

/// A separator-free sequence is a single part.
pub proof fn lemma_split_whole<T>(s: Seq<T>, sep: T)
    requires
        forall|i: int| 0 <= i < s.len() ==> s[i] != sep,
    ensures
        split_seq(s, sep) =~= seq![s],
    decreases s.len(),
{
    if s.len() == 0 {
        assert(split_seq(s, sep) == seq![Seq::<T>::empty()]);
        assert(s =~= Seq::<T>::empty());
    } else {
        lemma_split_whole(s.drop_first(), sep);
        lemma_split_len_pos(s.drop_first(), sep);
        assert(split_seq(s, sep)[0] =~= s);
        assert(split_seq(s, sep) =~= seq![s]);
    }
}

/// Splitting at the first separator: everything before it is the first part.
pub proof fn lemma_split_step<T>(s: Seq<T>, sep: T, i: int)
    requires
        0 <= i < s.len(),
        s[i] == sep,
        forall|j: int| 0 <= j < i ==> s[j] != sep,
    ensures
        split_seq(s, sep) =~= seq![s.take(i)] + split_seq(s.skip(i + 1), sep),
    decreases s.len(),
{
    if i == 0 {
        assert(s.drop_first() =~= s.skip(1));
        assert(s.take(0) =~= Seq::<T>::empty());
    } else {
        lemma_split_step(s.drop_first(), sep, i - 1);
        lemma_split_len_pos(s.drop_first().skip(i), sep);
        let rest = split_seq(s.drop_first(), sep);
        assert(s.drop_first().take(i - 1) =~= s.take(i).drop_first());
        assert(s.drop_first().skip(i) =~= s.skip(i + 1));
        assert(rest[0] == s.take(i).drop_first());
        assert(seq![s[0]] + rest[0] =~= s.take(i));
        assert(rest.drop_first() =~= split_seq(s.skip(i + 1), sep));
    }
}

/// The views of a sequence of vectors.
pub open spec fn views_of<T>(ps: Seq<Vec<T>>) -> Seq<Seq<T>> {
    ps.map_values(|p: Vec<T>| p@)
}

/// The characters of a string slice, as a vector.
pub fn str_chars(s: &str) -> (v: Vec<char>)
    ensures
        v@ == s@,
{
    let n = s.unicode_len();
    let mut v: Vec<char> = Vec::new();
    let mut i: usize = 0;
    while i < n
        invariant
            i <= n,
            n == s@.len(),
            v@ == s@.take(i as int),
        decreases n - i,
    {
        v.push(s.get_char(i));
        proof {
            assert(s@.take(i + 1) =~= s@.take(i as int).push(s@[i as int]));
        }
        i += 1;
    }
    proof {
        assert(s@.take(n as int) =~= s@);
    }
    v
}

/// Relies on `String: FromIterator<char>`: collecting characters yields the
/// string of exactly those characters.
#[verifier::external_body]
pub fn chars_to_string(v: &Vec<char>) -> (r: String)
    ensures
        r@ == v@,
{
    v.iter().collect()
}

/// A sequence ending in the separator splits into at least two parts, the
/// last of them empty.
pub proof fn lemma_split_ends_sep<T>(a: Seq<T>, sep: T)
    requires
        a.len() > 0,
        a.last() == sep,
    ensures
        split_seq(a, sep).len() >= 2,
        split_seq(a, sep).last().len() == 0,
    decreases a.len(),
{
    if a.len() == 1 {
        assert(a.drop_first() =~= Seq::<T>::empty());
    } else {
        lemma_split_ends_sep(a.drop_first(), sep);
        lemma_split_len_pos(a.drop_first(), sep);
    }
}

/// Splitting a concatenation whose first half ends in the separator:
/// the parts are those of the halves.
pub proof fn lemma_split_concat<T>(a: Seq<T>, b: Seq<T>, sep: T)
    requires
        a.len() > 0,
        a.last() == sep,
    ensures
        split_seq(a + b, sep) =~= split_seq(a, sep).drop_last() + split_seq(b, sep),
    decreases a.len(),
{
    if a.len() == 1 {
        assert((a + b).drop_first() =~= b);
        assert(a.drop_first() =~= Seq::<T>::empty());
        assert(split_seq(a, sep) =~= seq![Seq::<T>::empty(), Seq::<T>::empty()]);
        assert(split_seq(a, sep).drop_last() =~= seq![Seq::<T>::empty()]);
        assert(split_seq(a + b, sep) =~= seq![Seq::<T>::empty()] + split_seq(b, sep));
    } else {
        lemma_split_concat(a.drop_first(), b, sep);
        lemma_split_len_pos(a.drop_first(), sep);
        lemma_split_len_pos(b, sep);
        lemma_split_ends_sep(a.drop_first(), sep);
        assert((a + b).drop_first() =~= a.drop_first() + b);
        let u = split_seq(a.drop_first(), sep);
        let r = split_seq(a.drop_first() + b, sep);
        assert(r =~= u.drop_last() + split_seq(b, sep));
        if a[0] == sep {
            assert(split_seq(a + b, sep) =~= seq![Seq::<T>::empty()] + r);
            assert(split_seq(a, sep) =~= seq![Seq::<T>::empty()] + u);
            assert(split_seq(a, sep).drop_last() =~= seq![Seq::<T>::empty()] + u.drop_last());
        } else {
            assert((a + b)[0] == a[0]);
            assert(r[0] == u[0]);
            assert(split_seq(a + b, sep) =~= seq![seq![a[0]] + r[0]] + r.drop_first());
            assert(r.drop_first() =~= u.drop_last().drop_first() + split_seq(b, sep));
            assert(u.drop_last().drop_first() =~= u.drop_first().drop_last());
            assert(split_seq(a, sep) =~= seq![seq![a[0]] + u[0]] + u.drop_first());
            assert(split_seq(a, sep).drop_last() =~= seq![seq![a[0]] + u[0]]
                + u.drop_first().drop_last());
        }
    }
}

} // verus!
