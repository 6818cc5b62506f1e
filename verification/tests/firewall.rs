use hsarec::binding::chord_satisfied;
use hsarec::hotkey::Key;
use hsarec::program::{is_fw_rule, parse_path_output, start, FirewallStep};

#[test]
fn start_with_existing_rule() {
    let steps = start(true);
    assert_eq!(
        steps,
        vec![FirewallStep::EnableRule, FirewallStep::Wait, FirewallStep::DisableRule]
    );
}

#[test]
fn start_creates_missing_rule_first() {
    let steps = start(false);
    assert_eq!(
        steps,
        vec![
            FirewallStep::CreateRule,
            FirewallStep::EnableRule,
            FirewallStep::Wait,
            FirewallStep::DisableRule,
        ]
    );
}

#[test]
fn rule_listing_with_marker() {
    let output = b"Rule Name: Curtion_LS\r\nEnabled: No\r\n".to_vec();
    assert!(is_fw_rule(&output));
}

#[test]
fn rule_listing_without_marker() {
    let output = b"No rules match the specified criteria.\r\n".to_vec();
    assert!(!is_fw_rule(&output));
}

#[test]
fn rule_marker_is_searched_in_decoded_text() {
    // A GB2312 lead byte right before the marker consumes the marker's
    // first byte as the trail byte of a two-byte character, so the decoded
    // text does not contain the rule name even though the raw bytes do.
    let mut output: Vec<u8> = Vec::new();
    output.push(0xB0);
    output.extend_from_slice(b"Curtion_LS");
    assert!(!is_fw_rule(&output));
}

#[test]
fn path_output_second_field_is_the_path() {
    let output = b"ExecutablePath\r\nC:\\Games\\Hearthstone\\Hearthstone.exe\r\n\r\n".to_vec();
    assert_eq!(
        parse_path_output(&output),
        Some("C:\\Games\\Hearthstone\\Hearthstone.exe".to_string())
    );
}

#[test]
fn path_output_decodes_gb2312() {
    // 0xC4 0xE3 is one Simplified-Chinese character in GB2312.
    let mut output: Vec<u8> = Vec::new();
    output.extend_from_slice(b"ExecutablePath\r\nC:\\");
    output.push(0xC4);
    output.push(0xE3);
    output.extend_from_slice(b"\\Hearthstone.exe\r\n");
    let path = parse_path_output(&output).unwrap();
    assert_eq!(path, "C:\\\u{4f60}\\Hearthstone.exe");
}

#[test]
fn path_output_without_second_field() {
    assert_eq!(parse_path_output(&b"ExecutablePath\r\n".to_vec()), None);
    assert_eq!(parse_path_output(&b"".to_vec()), None);
}

#[test]
fn chord_fires_only_with_all_modifiers_held() {
    let mods = vec![Key::LShift, Key::LAlt];
    assert!(chord_satisfied(&mods, &vec![Key::LAlt, Key::LShift, Key::A]));
    assert!(!chord_satisfied(&mods, &vec![Key::LShift]));
    assert!(chord_satisfied(&Vec::new(), &Vec::new()));
}
