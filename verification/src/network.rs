//! Decoded TCP connection rows. The system's connection table hands out
//! addresses and ports as 32-bit fields holding network byte order in a
//! little-endian word, so the first byte in memory is the low byte of the
//! word: the port's high byte is the word's lowest byte, and an address's
//! first octet likewise.
use vstd::prelude::*;

use crate::Ipv4;
use crate::scan::chars_to_string;

verus! {

/// One connection of the watched process, with the raw table fields.
#[derive(Clone, Copy, PartialEq, Eq, Structural, Debug)]
pub struct NetworkInfo {
    pub local_addr: u32,
    pub local_port: u32,
    pub remote_addr: u32,
    pub remote_port: u32,
}

/// One raw row of the system's connection table, with its owning process.
#[derive(Clone, Copy, PartialEq, Eq, Structural, Debug)]
pub struct TcpRow {
    pub local_addr: u32,
    pub local_port: u32,
    pub remote_addr: u32,
    pub remote_port: u32,
    pub owning_pid: u32,
}

/// The port held in a raw table field: high byte first in memory, so the
/// word's two low bytes, swapped.
pub open spec fn port_of(x: u32) -> u16 {
    ((x & 0xFF) * 256 + ((x >> 8) & 0xFF)) as u16
}

/// The address held in a raw table field: the four octets in memory order,
/// which is the word's bytes from low to high.
pub open spec fn ipv4_of(x: u32) -> Ipv4 {
    Ipv4 {
        a: (x & 0xFF) as u8,
        b: ((x >> 8) & 0xFF) as u8,
        c: ((x >> 16) & 0xFF) as u8,
        d: ((x >> 24) & 0xFF) as u8,
    }
}

/// The connection fields of a raw row.
pub open spec fn info_of(row: TcpRow) -> NetworkInfo {
    NetworkInfo {
        local_addr: row.local_addr,
        local_port: row.local_port,
        remote_addr: row.remote_addr,
        remote_port: row.remote_port,
    }
}

/// The connections of one process: the rows the process owns, in table
/// order, with the owner field dropped.
pub open spec fn conns_of(rows: Seq<TcpRow>, pid: u32) -> Seq<NetworkInfo>
    decreases rows.len(),
{
    if rows.len() == 0 {
        Seq::empty()
    } else {
        let rest = conns_of(rows.drop_last(), pid);
        if rows.last().owning_pid == pid {
            rest.push(info_of(rows.last()))
        } else {
            rest
        }
    }
}

fn decode_port(x: u32) -> (r: u16)
    ensures
        r == port_of(x),
{
    let lo = x & 0xFF;
    let hi = (x >> 8) & 0xFF;
    proof {
        assert(x & 0xFF < 256 && (x >> 8) & 0xFF < 256) by (bit_vector);
    }
    (lo as u16) * 256 + (hi as u16)
}

fn decode_ipv4(x: u32) -> (r: Ipv4)
    ensures
        r == ipv4_of(x),
{
    proof {
        assert(x & 0xFF < 256 && (x >> 8) & 0xFF < 256 && (x >> 16) & 0xFF < 256 && (x >> 24)
            & 0xFF < 256) by (bit_vector);
    }
    Ipv4 {
        a: (x & 0xFF) as u8,
        b: ((x >> 8) & 0xFF) as u8,
        c: ((x >> 16) & 0xFF) as u8,
        d: ((x >> 24) & 0xFF) as u8,
    }
}

/// The decimal digits of a number.
pub open spec fn dec_chars(n: int) -> Seq<char>
    decreases n,
{
    if 0 <= n < 10 {
        seq![((48 + n) as u8) as char]
    } else if n >= 10 {
        dec_chars(n / 10) + seq![((48 + n % 10) as u8) as char]
    } else {
        Seq::empty()
    }
}

/// The textual dotted-quad form of an address.
pub open spec fn ipv4_text(ip: Ipv4) -> Seq<char> {
    dec_chars(ip.a as int) + seq!['.'] + dec_chars(ip.b as int) + seq!['.'] + dec_chars(
        ip.c as int,
    ) + seq!['.'] + dec_chars(ip.d as int)
}

/// The textual form of one connection: local, then remote, each as
/// `address:port`.
pub open spec fn net_info_text(ni: NetworkInfo) -> Seq<char> {
    ipv4_text(ipv4_of(ni.local_addr)) + seq![':'] + dec_chars(port_of(ni.local_port) as int) + seq![
        ' ',
        '-',
        '>',
        ' ',
    ] + ipv4_text(ipv4_of(ni.remote_addr)) + seq![':'] + dec_chars(port_of(ni.remote_port) as int)
}

fn push_dec(v: &mut Vec<char>, x: u16)
    ensures
        final(v)@ == old(v)@ + dec_chars(x as int),
    decreases x,
{
    if x < 10 {
        v.push((48 + x as u8) as char);
        proof {
            assert(v@ =~= old(v)@ + dec_chars(x as int));
        }
    } else {
        push_dec(v, x / 10);
        v.push((48 + (x % 10) as u8) as char);
        proof {
            assert(v@ =~= old(v)@ + dec_chars(x as int));
        }
    }
}

fn push_ipv4(v: &mut Vec<char>, ip: Ipv4)
    ensures
        final(v)@ == old(v)@ + ipv4_text(ip),
{
    push_dec(v, ip.a as u16);
    v.push('.');
    push_dec(v, ip.b as u16);
    v.push('.');
    push_dec(v, ip.c as u16);
    v.push('.');
    push_dec(v, ip.d as u16);
    proof {
        assert(v@ =~= old(v)@ + ipv4_text(ip));
    }
}

impl NetworkInfo {
    /// The local address, decoded to octets.
    pub fn local_addr_as_ipv4(&self) -> (r: Ipv4)
        ensures
            r == ipv4_of(self.local_addr),
    {
        decode_ipv4(self.local_addr)
    }

    /// The local port, decoded from the raw field.
    pub fn local_port_as_u16(&self) -> (r: u16)
        ensures
            r == port_of(self.local_port),
    {
        decode_port(self.local_port)
    }

    /// The remote address, decoded to octets.
    pub fn remote_addr_as_ipv4(&self) -> (r: Ipv4)
        ensures
            r == ipv4_of(self.remote_addr),
    {
        decode_ipv4(self.remote_addr)
    }

    /// The remote port, decoded from the raw field.
    pub fn remote_port_as_u16(&self) -> (r: u16)
        ensures
            r == port_of(self.remote_port),
    {
        decode_port(self.remote_port)
    }

    /// The connection as text, `local -> remote`, for log output.
    pub fn describe(&self) -> (r: String)
        ensures
            r@ == net_info_text(*self),
    {
        let mut v: Vec<char> = Vec::new();
        push_ipv4(&mut v, decode_ipv4(self.local_addr));
        v.push(':');
        push_dec(&mut v, decode_port(self.local_port));
        v.push(' ');
        v.push('-');
        v.push('>');
        v.push(' ');
        push_ipv4(&mut v, decode_ipv4(self.remote_addr));
        v.push(':');
        push_dec(&mut v, decode_port(self.remote_port));
        proof {
            assert(v@ =~= net_info_text(*self));
        }
        chars_to_string(&v)
    }
}

/// The connections owned by `pid`, in table order: exactly the rows whose
/// owner is `pid`, and none of any other process.
pub fn list_connections(table: &Vec<TcpRow>, pid: u32) -> (r: Vec<NetworkInfo>)
    ensures
        r@ == conns_of(table@, pid),
{
    let n = table.len();
    let mut r: Vec<NetworkInfo> = Vec::new();
    let mut i: usize = 0;
    proof {
        assert(table@.take(0) =~= Seq::<TcpRow>::empty());
    }
    while i < n
        invariant
            0 <= i <= n,
            n == table@.len(),
            r@ == conns_of(table@.take(i as int), pid),
        decreases n - i,
    {
        let row = table[i];
        proof {
            assert(table@.take(i as int + 1).drop_last() =~= table@.take(i as int));
            assert(table@.take(i as int + 1).last() == table@[i as int]);
        }
        if row.owning_pid == pid {
            r.push(
                NetworkInfo {
                    local_addr: row.local_addr,
                    local_port: row.local_port,
                    remote_addr: row.remote_addr,
                    remote_port: row.remote_port,
                },
            );
        }
        i += 1;
    }
    proof {
        assert(table@.take(n as int) =~= table@);
    }
    r
}

/// A row owned by another process never changes a listing: only the asked
/// process's rows appear.
pub proof fn lemma_connections_skip_other(rows: Seq<TcpRow>, row: TcpRow, pid: u32)
    requires
        row.owning_pid != pid,
    ensures
        conns_of(rows.push(row), pid) == conns_of(rows, pid),
{
    assert(rows.push(row).drop_last() =~= rows);
    assert(rows.push(row).last() == row);
}

/// A row owned by the asked process appends exactly its connection.
pub proof fn lemma_connections_keep_own(rows: Seq<TcpRow>, row: TcpRow, pid: u32)
    requires
        row.owning_pid == pid,
    ensures
        conns_of(rows.push(row), pid) == conns_of(rows, pid).push(info_of(row)),
{
    assert(rows.push(row).drop_last() =~= rows);
    assert(rows.push(row).last() == row);
}

/// Every row of the asked process appears in the listing.
pub proof fn lemma_connections_complete(rows: Seq<TcpRow>, pid: u32, j: int)
    requires
        0 <= j < rows.len(),
        rows[j].owning_pid == pid,
    ensures
        conns_of(rows, pid).contains(info_of(rows[j])),
    decreases rows.len(),
{
    if j == rows.len() - 1 {
        assert(rows.last() == rows[j]);
        let c = conns_of(rows, pid);
        assert(c.last() == info_of(rows[j]));
        assert(c.contains(info_of(rows[j])));
    } else {
        lemma_connections_complete(rows.drop_last(), pid, j);
        let prev = conns_of(rows.drop_last(), pid);
        let k = choose|k: int| 0 <= k < prev.len() && prev[k] == info_of(rows.drop_last()[j]);
        assert(rows.drop_last()[j] == rows[j]);
        assert(conns_of(rows, pid)[k] == info_of(rows[j]));
        assert(conns_of(rows, pid).contains(info_of(rows[j])));
    }
}

} // verus!
