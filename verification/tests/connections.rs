use hsarec::network::{list_connections, NetworkInfo, TcpRow};
use hsarec::process::{get_process_by_name, ProcessInfo, ProcessScanRow};
use hsarec::workflow::{check_process, choose_connection};
use hsarec::{AppError, Ipv4};

/// A raw table field holding the given port in network byte order, as the
/// system stores it in a little-endian 32-bit word.
fn raw_port(port: u16) -> u32 {
    let b = port.to_be_bytes();
    u32::from_le_bytes([b[0], b[1], 0, 0])
}

/// A raw table field holding the given address in network byte order.
fn raw_addr(a: u8, b: u8, c: u8, d: u8) -> u32 {
    u32::from_le_bytes([a, b, c, d])
}

fn row(pid: u32, remote: (u8, u8, u8, u8), port: u16) -> TcpRow {
    TcpRow {
        local_addr: raw_addr(192, 168, 0, 2),
        local_port: raw_port(50000),
        remote_addr: raw_addr(remote.0, remote.1, remote.2, remote.3),
        remote_port: raw_port(port),
        owning_pid: pid,
    }
}

#[test]
fn port_decodes_from_network_byte_order() {
    let ni = NetworkInfo {
        local_addr: 0,
        local_port: raw_port(3724),
        remote_addr: 0,
        remote_port: raw_port(80),
    };
    assert_eq!(ni.local_port_as_u16(), 3724);
    assert_eq!(ni.remote_port_as_u16(), 80);
}

#[test]
fn address_decodes_from_network_byte_order() {
    let ni = NetworkInfo {
        local_addr: raw_addr(192, 168, 0, 2),
        local_port: 0,
        remote_addr: raw_addr(203, 0, 113, 7),
        remote_port: 0,
    };
    assert_eq!(ni.local_addr_as_ipv4(), Ipv4 { a: 192, b: 168, c: 0, d: 2 });
    assert_eq!(ni.remote_addr_as_ipv4(), Ipv4 { a: 203, b: 0, c: 113, d: 7 });
}

#[test]
fn connection_text_is_exact() {
    let ni = NetworkInfo {
        local_addr: raw_addr(1, 2, 3, 4),
        local_port: raw_port(80),
        remote_addr: raw_addr(5, 6, 7, 8),
        remote_port: raw_port(3724),
    };
    assert_eq!(ni.describe(), "1.2.3.4:80 -> 5.6.7.8:3724");
}

#[test]
fn listing_keeps_only_the_asked_pid() {
    let a = 100;
    let b = 200;
    let c = 300;
    let table = vec![
        row(a, (10, 0, 0, 1), 1001),
        row(b, (10, 0, 0, 2), 2001),
        row(c, (10, 0, 0, 3), 3001),
        row(b, (10, 0, 0, 4), 2002),
    ];
    let conns = list_connections(&table, b);
    assert_eq!(conns.len(), 2);
    assert_eq!(conns[0].remote_port_as_u16(), 2001);
    assert_eq!(conns[1].remote_port_as_u16(), 2002);
    for ni in &conns {
        assert_ne!(ni.remote_addr_as_ipv4().d, 1);
        assert_ne!(ni.remote_addr_as_ipv4().d, 3);
    }
}

#[test]
fn listing_for_unknown_pid_is_empty() {
    let table = vec![row(100, (10, 0, 0, 1), 1001)];
    assert_eq!(list_connections(&table, 999), Vec::<NetworkInfo>::new());
}

#[test]
fn process_filter_keeps_name_and_running_state() {
    let rows = vec![
        ProcessScanRow {
            name: "Hearthstone.exe".to_string(),
            running: true,
            pid: 41,
            path: "C:\\Games\\Hearthstone\\Hearthstone.exe".to_string(),
        },
        ProcessScanRow {
            name: "Other.exe".to_string(),
            running: true,
            pid: 42,
            path: "C:\\Other.exe".to_string(),
        },
        ProcessScanRow {
            name: "Hearthstone.exe".to_string(),
            running: false,
            pid: 43,
            path: "C:\\Stale.exe".to_string(),
        },
    ];
    let procs = get_process_by_name(&rows, "Hearthstone.exe");
    assert_eq!(procs.len(), 1);
    assert_eq!(procs[0].pid, 41);
    assert_eq!(procs[0].path, "C:\\Games\\Hearthstone\\Hearthstone.exe");
}

#[test]
fn zero_processes_stop_the_workflow() {
    let procs: Vec<ProcessInfo> = Vec::new();
    assert_eq!(check_process(&procs), Err(AppError::ProcessNotFound));
}

#[test]
fn two_processes_stop_the_workflow() {
    let procs = vec![
        ProcessInfo { pid: 1, path: "a".to_string() },
        ProcessInfo { pid: 2, path: "b".to_string() },
    ];
    assert_eq!(check_process(&procs), Err(AppError::AmbiguousProcess));
}

#[test]
fn one_process_yields_its_pid() {
    let procs = vec![ProcessInfo { pid: 77, path: "a".to_string() }];
    assert_eq!(check_process(&procs), Ok(77));
}

#[test]
fn first_matching_connection_is_chosen() {
    let table = vec![
        row(1, (10, 0, 0, 1), 1111),
        row(1, (203, 0, 113, 7), 3724),
        row(1, (203, 0, 113, 7), 3724),
        row(1, (10, 0, 0, 9), 9999),
    ];
    let conns = list_connections(&table, 1);
    let ip = Some(Ipv4 { a: 203, b: 0, c: 113, d: 7 });
    let chosen = choose_connection(&conns, ip, Some(3724)).unwrap();
    assert_eq!(chosen, 1);
}

#[test]
fn no_match_is_connection_not_found() {
    let conns = list_connections(&vec![row(1, (10, 0, 0, 1), 1111)], 1);
    let ip = Some(Ipv4 { a: 203, b: 0, c: 113, d: 7 });
    assert_eq!(choose_connection(&conns, ip, Some(3724)), Err(AppError::ConnectionNotFound));
}

#[test]
fn unknown_endpoint_matches_nothing() {
    let conns = list_connections(&vec![row(1, (10, 0, 0, 1), 1111)], 1);
    assert_eq!(choose_connection(&conns, None, None), Err(AppError::ConnectionNotFound));
    assert_eq!(
        choose_connection(&conns, Some(Ipv4 { a: 10, b: 0, c: 0, d: 1 }), None),
        Err(AppError::ConnectionNotFound)
    );
}

#[test]
fn log_line_to_termination_target() {
    // The full scenario: the announced endpoint picks the first table row
    // whose remote side equals it, and no other row.
    let l = "GotoGameServe() etc address= 203.0.113.7:3724".as_bytes().to_vec();
    // the marker must be complete for the line to count
    let full = "Network.GotoGameServe() etc address= 203.0.113.7:3724".as_bytes().to_vec();
    assert_eq!(hsarec::logline::parse_log_line(&l), None);
    let msg = hsarec::logline::parse_log_line(&full).unwrap();

    let table = vec![
        row(8, (10, 0, 0, 1), 1111),
        row(8, (203, 0, 113, 7), 3724),
        row(8, (10, 0, 0, 2), 2222),
    ];
    let conns = list_connections(&table, 8);
    let chosen = choose_connection(&conns, msg.ip, Some(msg.port)).unwrap();
    assert_eq!(chosen, 1);
    assert_eq!(conns[chosen].remote_addr_as_ipv4(), Ipv4 { a: 203, b: 0, c: 113, d: 7 });
    assert_eq!(conns[chosen].remote_port_as_u16(), 3724);
}
