//! The reconnect trigger workflow: pick the single live target process,
//! then pick the first connection whose remote side equals the last known
//! endpoint. Each step either commits to exactly one choice or stops with
//! the specific error; with zero or several candidate processes nothing
//! further is attempted.
use vstd::prelude::*;

use crate::{AppError, Ipv4};
use crate::network::{NetworkInfo, ipv4_of, port_of};
use crate::process::ProcessInfo;

verus! {

/// What process selection decides, given how many processes matched.
pub open spec fn spec_check_process(procs: Seq<ProcessInfo>) -> Result<u32, AppError> {
    if procs.len() == 0 {
        Err(AppError::ProcessNotFound)
    } else if procs.len() > 1 {
        Err(AppError::AmbiguousProcess)
    } else {
        Ok(procs[0].pid)
    }
}

/// Accept the process listing only when exactly one process matched; with
/// zero or several, stop with the specific error.
pub fn check_process(procs: &Vec<ProcessInfo>) -> (r: Result<u32, AppError>)
    ensures
        r == spec_check_process(procs@),
{
    if procs.len() == 0 {
        Err(AppError::ProcessNotFound)
    } else if procs.len() > 1 {
        Err(AppError::AmbiguousProcess)
    } else {
        Ok(procs[0].pid)
    }
}

/// With zero or more than one matching process, the workflow yields the
/// specific error and never a target to query: no table read and no
/// termination can follow.
pub proof fn lemma_no_target_without_single_process(procs: Seq<ProcessInfo>)
    requires
        procs.len() != 1,
    ensures
        spec_check_process(procs) is Err,
        procs.len() == 0 ==> spec_check_process(procs) == Err::<u32, AppError>(
            AppError::ProcessNotFound,
        ),
        procs.len() > 1 ==> spec_check_process(procs) == Err::<u32, AppError>(
            AppError::AmbiguousProcess,
        ),
{
}

/// A connection is the one to sever when its remote side equals the known
/// endpoint; with no known address or port nothing matches.
pub open spec fn conn_matches(ni: NetworkInfo, ip: Option<Ipv4>, port: Option<u16>) -> bool {
    &&& ip is Some
    &&& port is Some
    &&& ipv4_of(ni.remote_addr) == ip->Some_0
    &&& port_of(ni.remote_port) == port->Some_0
}

/// Choose the first connection whose remote endpoint equals the known one.
/// Succeeds exactly when some connection matches; the chosen index is the
/// first match, so no other connection is touched.
pub fn choose_connection(table: &Vec<NetworkInfo>, ip: Option<Ipv4>, port: Option<u16>) -> (r:
    Result<usize, AppError>)
    ensures
        match r {
            Ok(i) => 0 <= i < table@.len() && conn_matches(table@[i as int], ip, port)
                && forall|j: int| 0 <= j < i ==> !conn_matches(table@[j], ip, port),
            Err(e) => e == AppError::ConnectionNotFound && forall|j: int|
                0 <= j < table@.len() ==> !conn_matches(table@[j], ip, port),
        },
{
    let (ipv, pv) = match (ip, port) {
        (Some(ipv), Some(pv)) => (ipv, pv),
        _ => {
            return Err(AppError::ConnectionNotFound);
        },
    };
    let n = table.len();
    let mut i: usize = 0;
    while i < n
        invariant
            0 <= i <= n,
            n == table@.len(),
            ip == Some(ipv),
            port == Some(pv),
            forall|j: int| 0 <= j < i ==> !conn_matches(table@[j], ip, port),
        decreases n - i,
    {
        let row = &table[i];
        let ra = row.remote_addr_as_ipv4();
        let rp = row.remote_port_as_u16();
        if ra == ipv && rp == pv {
            return Ok(i);
        }
        i += 1;
    }
    Err(AppError::ConnectionNotFound)
}

} // verus!
