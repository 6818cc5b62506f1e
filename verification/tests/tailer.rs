use hsarec::logline::{parse_log_line, LogMessage};
use hsarec::tail::{get_newest_folder, read_new_lines, FolderEntry, TailState};
use hsarec::{AppError, Ipv4};

fn line(text: &str) -> Vec<u8> {
    text.as_bytes().to_vec()
}

#[test]
fn example_line_yields_endpoint() {
    let l = line(
        "D 10:30:21 Network.GotoGameServe() called, address= 203.0.113.7:3724 ready",
    );
    let msg = parse_log_line(&l).unwrap();
    assert_eq!(msg.ip, Some(Ipv4 { a: 203, b: 0, c: 113, d: 7 }));
    assert_eq!(msg.port, 3724);
}

#[test]
fn line_without_marker_is_ignored() {
    let l = line("D 10:30:21 SomethingElse() address= 203.0.113.7:3724");
    assert_eq!(parse_log_line(&l), None);
}

#[test]
fn line_without_address_tag_is_ignored() {
    let l = line("D Network.GotoGameServe() called, no endpoint here");
    assert_eq!(parse_log_line(&l), None);
}

#[test]
fn malformed_address_still_announces_port() {
    let l = line("Network.GotoGameServe() address= 1.2.3:99");
    let msg = parse_log_line(&l).unwrap();
    assert_eq!(msg.ip, None);
    assert_eq!(msg.port, 99);
}

#[test]
fn leading_zero_octet_is_not_an_address() {
    let l = line("Network.GotoGameServe() address= 01.2.3.4:99");
    let msg = parse_log_line(&l).unwrap();
    assert_eq!(msg.ip, None);
}

#[test]
fn octet_above_255_is_not_an_address() {
    let l = line("Network.GotoGameServe() address= 256.2.3.4:99");
    let msg = parse_log_line(&l).unwrap();
    assert_eq!(msg.ip, None);
}

#[test]
fn port_above_u16_drops_the_line() {
    let l = line("Network.GotoGameServe() address= 1.2.3.4:70000");
    assert_eq!(parse_log_line(&l), None);
}

#[test]
fn matching_lines_emit_in_file_order() {
    let content = line(
        "noise line\r\n\
         Network.GotoGameServe() address= 10.0.0.1:111\r\n\
         more noise\r\n\
         Network.GotoGameServe() address= 10.0.0.2:222\n\
         Network.GotoGameServe() address= 10.0.0.3:333\n\
         trailing noise\n",
    );
    let mut state = TailState { offset: 0 };
    let msgs = read_new_lines(&mut state, content.len() as u64, &content).unwrap();
    assert_eq!(msgs.len(), 3);
    assert_eq!(msgs[0].port, 111);
    assert_eq!(msgs[1].port, 222);
    assert_eq!(msgs[2].port, 333);
    assert_eq!(msgs[1].ip, Some(Ipv4 { a: 10, b: 0, c: 0, d: 2 }));
    assert_eq!(state.offset, content.len() as u64);
}

#[test]
fn chunked_reads_match_whole_read() {
    let part1 = line("Network.GotoGameServe() address= 10.0.0.1:111\n noise\n");
    let part2 = line("noise\nNetwork.GotoGameServe() address= 10.0.0.2:222\n");
    let mut whole = part1.clone();
    whole.extend_from_slice(&part2);

    let mut chunked = TailState { offset: 0 };
    let mut msgs = read_new_lines(&mut chunked, part1.len() as u64, &part1).unwrap();
    msgs.extend(read_new_lines(&mut chunked, whole.len() as u64, &part2).unwrap());

    let mut at_once = TailState { offset: 0 };
    let whole_msgs = read_new_lines(&mut at_once, whole.len() as u64, &whole).unwrap();

    let ports: Vec<u16> = msgs.iter().map(|m| m.port).collect();
    let whole_ports: Vec<u16> = whole_msgs.iter().map(|m| m.port).collect();
    assert_eq!(ports, vec![111, 222]);
    assert_eq!(ports, whole_ports);
    assert_eq!(chunked.offset, at_once.offset);
}

#[test]
fn unchanged_file_emits_nothing() {
    let content = line("Network.GotoGameServe() address= 10.0.0.1:111\n");
    let mut state = TailState { offset: 0 };
    read_new_lines(&mut state, content.len() as u64, &content).unwrap();
    let before = state;
    let empty: Vec<u8> = Vec::new();
    let again = read_new_lines(&mut state, content.len() as u64, &empty).unwrap();
    assert_eq!(again, Vec::<LogMessage>::new());
    assert_eq!(state, before);
}

#[test]
fn shrunken_file_loses_the_session() {
    let mut state = TailState { offset: 100 };
    let empty: Vec<u8> = Vec::new();
    let r = read_new_lines(&mut state, 40, &empty);
    assert_eq!(r, Err(AppError::WatchSessionLost));
    assert_eq!(state.offset, 100);
}

#[test]
fn newest_folder_wins() {
    let entries = vec![
        FolderEntry { created: 5, path: "a".to_string() },
        FolderEntry { created: 9, path: "b".to_string() },
        FolderEntry { created: 7, path: "c".to_string() },
    ];
    assert_eq!(get_newest_folder(&entries), Some(1));
}

#[test]
fn newest_folder_tie_takes_the_last() {
    let entries = vec![
        FolderEntry { created: 9, path: "a".to_string() },
        FolderEntry { created: 9, path: "b".to_string() },
        FolderEntry { created: 3, path: "c".to_string() },
    ];
    assert_eq!(get_newest_folder(&entries), Some(1));
}

#[test]
fn no_folders_no_choice() {
    assert_eq!(get_newest_folder(&Vec::new()), None);
}

#[test]
fn port_at_u16_boundary_is_accepted() {
    let l = line("Network.GotoGameServe() address= 1.2.3.4:65535");
    let msg = parse_log_line(&l).unwrap();
    assert_eq!(msg.port, 65535);
    let l2 = line("Network.GotoGameServe() address= 1.2.3.4:65536");
    assert_eq!(parse_log_line(&l2), None);
}

#[test]
fn port_digits_may_carry_leading_zeros() {
    let l = line("Network.GotoGameServe() address= 1.2.3.4:0003724");
    let msg = parse_log_line(&l).unwrap();
    assert_eq!(msg.port, 3724);
    assert_eq!(msg.ip, Some(Ipv4 { a: 1, b: 2, c: 3, d: 4 }));
}
