use hsarec::hotkey::{format_hotkey, key_string_to_keybdkey, parse_hotkey_config, Key};

#[test]
fn parse_default_binding() {
    let (main, mods) = parse_hotkey_config("Shift+Alt+R");
    assert_eq!(main, Some(Key::R));
    assert_eq!(mods, vec![Key::LShift, Key::LAlt]);
}

#[test]
fn parse_ctrl_f12() {
    let (main, mods) = parse_hotkey_config("Ctrl+F12");
    assert_eq!(main, Some(Key::F12));
    assert_eq!(mods, vec![Key::LCtrl]);
}

#[test]
fn parse_is_case_insensitive_and_trims() {
    let (main, mods) = parse_hotkey_config(" shift + alt + r ");
    assert_eq!(main, Some(Key::R));
    assert_eq!(mods, vec![Key::LShift, Key::LAlt]);
}

#[test]
fn parse_skips_unknown_modifiers() {
    let (main, mods) = parse_hotkey_config("Bogus+Shift+X");
    assert_eq!(main, Some(Key::X));
    assert_eq!(mods, vec![Key::LShift]);
}

#[test]
fn parse_unknown_main_key() {
    let (main, mods) = parse_hotkey_config("Shift+Bogus");
    assert_eq!(main, None);
    assert_eq!(mods, vec![Key::LShift]);
}

#[test]
fn parse_empty_string() {
    let (main, mods) = parse_hotkey_config("");
    assert_eq!(main, None);
    assert_eq!(mods, Vec::<Key>::new());
}

#[test]
fn parse_trailing_separator() {
    let (main, mods) = parse_hotkey_config("Shift+");
    assert_eq!(main, None);
    assert_eq!(mods, vec![Key::LShift]);
}

#[test]
fn roundtrip_default_binding() {
    let (main, mods) = parse_hotkey_config("Shift+Alt+R");
    let text = format_hotkey(main.unwrap(), &mods);
    assert_eq!(text, "LSHIFT+LALT+R");
    let (main2, mods2) = parse_hotkey_config(&text);
    assert_eq!(main2, main);
    assert_eq!(mods2, mods);
}

#[test]
fn roundtrip_various_chords() {
    for text in ["Ctrl+F12", "NUMPAD5", "RCtrl+RShift+Space", "Esc", "Num3", "9"] {
        let (main, mods) = parse_hotkey_config(text);
        let main = main.unwrap();
        let serialized = format_hotkey(main, &mods);
        let (main2, mods2) = parse_hotkey_config(&serialized);
        assert_eq!(main2, Some(main));
        assert_eq!(mods2, mods);
    }
}

#[test]
fn format_without_modifiers() {
    let text = format_hotkey(Key::F5, &Vec::new());
    assert_eq!(text, "F5");
}

#[test]
fn key_names_map_to_keys() {
    assert_eq!(key_string_to_keybdkey("CTRL"), Some(Key::LCtrl));
    assert_eq!(key_string_to_keybdkey("LCONTROL"), Some(Key::LCtrl));
    assert_eq!(key_string_to_keybdkey("rcontrol"), Some(Key::RCtrl));
    assert_eq!(key_string_to_keybdkey("shift"), Some(Key::LShift));
    assert_eq!(key_string_to_keybdkey("ALT"), Some(Key::LAlt));
    assert_eq!(key_string_to_keybdkey("escape"), Some(Key::Esc));
    assert_eq!(key_string_to_keybdkey("ESC"), Some(Key::Esc));
    assert_eq!(key_string_to_keybdkey("0"), Some(Key::Num0));
    assert_eq!(key_string_to_keybdkey("NUM7"), Some(Key::Num7));
    assert_eq!(key_string_to_keybdkey("NUMPAD0"), Some(Key::Numpad0));
    assert_eq!(key_string_to_keybdkey("enter"), Some(Key::Enter));
    assert_eq!(key_string_to_keybdkey("TAB"), Some(Key::Tab));
    assert_eq!(key_string_to_keybdkey("F10"), Some(Key::F10));
    assert_eq!(key_string_to_keybdkey("Q"), Some(Key::Q));
    assert_eq!(key_string_to_keybdkey("QQ"), None);
    assert_eq!(key_string_to_keybdkey(""), None);
    assert_eq!(key_string_to_keybdkey("F13"), None);
}
