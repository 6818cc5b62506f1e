//! Filtering a process-table snapshot down to the running processes with
//! the target executable name. The snapshot itself is read by the
//! application; the selection is decided here.
use vstd::prelude::*;

use crate::scan::str_chars;

verus! {

/// A resolved process: its identifier and its executable path.
#[derive(Clone, PartialEq, Eq, Debug)]
pub struct ProcessInfo {
    pub pid: u32,
    pub path: String,
}

/// One row of a process-table snapshot, as the application reads it.
#[derive(Clone, PartialEq, Eq, Debug)]
pub struct ProcessScanRow {
    pub name: String,
    pub running: bool,
    pub pid: u32,
    pub path: String,
}

/// The (pid, path) pairs of the rows that carry the wanted name and are in
/// a running state, in snapshot order.
pub open spec fn procs_of(rows: Seq<ProcessScanRow>, name: Seq<char>) -> Seq<(u32, Seq<char>)>
    decreases rows.len(),
{
    if rows.len() == 0 {
        Seq::empty()
    } else {
        let rest = procs_of(rows.drop_last(), name);
        if rows.last().name@ == name && rows.last().running {
            rest.push((rows.last().pid, rows.last().path@))
        } else {
            rest
        }
    }
}

fn chars_eq(a: &Vec<char>, b: &Vec<char>) -> (r: bool)
    ensures
        r == (a@ == b@),
{
    let n = a.len();
    if n != b.len() {
        return false;
    }
    let mut i: usize = 0;
    while i < n
        invariant
            0 <= i <= n,
            n == a@.len(),
            n == b@.len(),
            forall|j: int| 0 <= j < i ==> a@[j] == b@[j],
        decreases n - i,
    {
        if a[i] != b[i] {
            return false;
        }
        i += 1;
    }
    proof {
        assert(a@ =~= b@);
    }
    true
}

/// The running processes of the snapshot whose name equals `name`, in
/// snapshot order.
pub fn get_process_by_name(rows: &Vec<ProcessScanRow>, name: &str) -> (r: Vec<ProcessInfo>)
    ensures
        r@.map_values(|p: ProcessInfo| (p.pid, p.path@)) == procs_of(rows@, name@),
{
    let want = str_chars(name);
    let n = rows.len();
    let mut r: Vec<ProcessInfo> = Vec::new();
    let mut i: usize = 0;
    proof {
        assert(rows@.take(0) =~= Seq::<ProcessScanRow>::empty());
        assert(r@.map_values(|p: ProcessInfo| (p.pid, p.path@)) =~= procs_of(
            rows@.take(0),
            name@,
        ));
    }
    while i < n
        invariant
            0 <= i <= n,
            n == rows@.len(),
            want@ == name@,
            r@.map_values(|p: ProcessInfo| (p.pid, p.path@)) == procs_of(rows@.take(i as int), name@),
        decreases n - i,
    {
        proof {
            assert(rows@.take(i as int + 1).drop_last() =~= rows@.take(i as int));
            assert(rows@.take(i as int + 1).last() == rows@[i as int]);
        }
        let row = &rows[i];
        let row_name = str_chars(row.name.as_str());
        if chars_eq(&row_name, &want) && row.running {
            let p = ProcessInfo { pid: row.pid, path: row.path.clone() };
            r.push(p);
            proof {
                let f = |p: ProcessInfo| (p.pid, p.path@);
                assert(r@.map_values(f) =~= r@.drop_last().map_values(f).push(f(r@.last())));
            }
        }
        i += 1;
    }
    proof {
        assert(rows@.take(n as int) =~= rows@);
    }
    r
}

} // verus!
