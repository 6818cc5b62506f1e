//! The hotkey model: the set of keys a binding may name, the textual key
//! names the configuration uses, and parsing and serialization of hotkey
//! strings of the form `MOD1+MOD2+...+MAINKEY`.
//!
//! Key names are ASCII; case folding and trimming are therefore done over
//! ASCII only, which accepts exactly the names of the table below.
use vstd::prelude::*;
use vstd::string::StrSliceExecFns;

use crate::scan::{split_seq, lemma_split_len_pos, lemma_split_whole, lemma_split_step, views_of, str_chars};

verus! {

/// A key that can take part in a hotkey chord.
#[derive(Clone, Copy, PartialEq, Eq, Structural, Debug)]
pub enum Key {
    F1,
    F2,
    F3,
    F4,
    F5,
    F6,
    F7,
    F8,
    F9,
    F10,
    F11,
    F12,
    A,
    B,
    C,
    D,
    E,
    F,
    G,
    H,
    I,
    J,
    K,
    L,
    M,
    N,
    O,
    P,
    Q,
    R,
    S,
    T,
    U,
    V,
    W,
    X,
    Y,
    Z,
    Num0,
    Num1,
    Num2,
    Num3,
    Num4,
    Num5,
    Num6,
    Num7,
    Num8,
    Num9,
    Numpad0,
    Numpad1,
    Numpad2,
    Numpad3,
    Numpad4,
    Numpad5,
    Numpad6,
    Numpad7,
    Numpad8,
    Numpad9,
    LCtrl,
    RCtrl,
    LShift,
    RShift,
    LAlt,
    RAlt,
    Esc,
    Space,
    Enter,
    Tab,
}

/// The canonical textual name of a key, as it appears in a serialized
/// hotkey string.
pub open spec fn key_name(k: Key) -> Seq<char> {
    match k {
        Key::F1 => seq!['F', '1'],
        Key::F2 => seq!['F', '2'],
        Key::F3 => seq!['F', '3'],
        Key::F4 => seq!['F', '4'],
        Key::F5 => seq!['F', '5'],
        Key::F6 => seq!['F', '6'],
        Key::F7 => seq!['F', '7'],
        Key::F8 => seq!['F', '8'],
        Key::F9 => seq!['F', '9'],
        Key::F10 => seq!['F', '1', '0'],
        Key::F11 => seq!['F', '1', '1'],
        Key::F12 => seq!['F', '1', '2'],
        Key::A => seq!['A'],
        Key::B => seq!['B'],
        Key::C => seq!['C'],
        Key::D => seq!['D'],
        Key::E => seq!['E'],
        Key::F => seq!['F'],
        Key::G => seq!['G'],
        Key::H => seq!['H'],
        Key::I => seq!['I'],
        Key::J => seq!['J'],
        Key::K => seq!['K'],
        Key::L => seq!['L'],
        Key::M => seq!['M'],
        Key::N => seq!['N'],
        Key::O => seq!['O'],
        Key::P => seq!['P'],
        Key::Q => seq!['Q'],
        Key::R => seq!['R'],
        Key::S => seq!['S'],
        Key::T => seq!['T'],
        Key::U => seq!['U'],
        Key::V => seq!['V'],
        Key::W => seq!['W'],
        Key::X => seq!['X'],
        Key::Y => seq!['Y'],
        Key::Z => seq!['Z'],
        Key::Num0 => seq!['0'],
        Key::Num1 => seq!['1'],
        Key::Num2 => seq!['2'],
        Key::Num3 => seq!['3'],
        Key::Num4 => seq!['4'],
        Key::Num5 => seq!['5'],
        Key::Num6 => seq!['6'],
        Key::Num7 => seq!['7'],
        Key::Num8 => seq!['8'],
        Key::Num9 => seq!['9'],
        Key::Numpad0 => seq!['N', 'U', 'M', 'P', 'A', 'D', '0'],
        Key::Numpad1 => seq!['N', 'U', 'M', 'P', 'A', 'D', '1'],
        Key::Numpad2 => seq!['N', 'U', 'M', 'P', 'A', 'D', '2'],
        Key::Numpad3 => seq!['N', 'U', 'M', 'P', 'A', 'D', '3'],
        Key::Numpad4 => seq!['N', 'U', 'M', 'P', 'A', 'D', '4'],
        Key::Numpad5 => seq!['N', 'U', 'M', 'P', 'A', 'D', '5'],
        Key::Numpad6 => seq!['N', 'U', 'M', 'P', 'A', 'D', '6'],
        Key::Numpad7 => seq!['N', 'U', 'M', 'P', 'A', 'D', '7'],
        Key::Numpad8 => seq!['N', 'U', 'M', 'P', 'A', 'D', '8'],
        Key::Numpad9 => seq!['N', 'U', 'M', 'P', 'A', 'D', '9'],
        Key::LCtrl => seq!['L', 'C', 'T', 'R', 'L'],
        Key::RCtrl => seq!['R', 'C', 'T', 'R', 'L'],
        Key::LShift => seq!['L', 'S', 'H', 'I', 'F', 'T'],
        Key::RShift => seq!['R', 'S', 'H', 'I', 'F', 'T'],
        Key::LAlt => seq!['L', 'A', 'L', 'T'],
        Key::RAlt => seq!['R', 'A', 'L', 'T'],
        Key::Esc => seq!['E', 'S', 'C'],
        Key::Space => seq!['S', 'P', 'A', 'C', 'E'],
        Key::Enter => seq!['E', 'N', 'T', 'E', 'R'],
        Key::Tab => seq!['T', 'A', 'B'],
    }
}

pub open spec fn key_of_name1(c: char) -> Option<Key> {
    if c == 'A' { Some(Key::A) }
    else if c == 'B' { Some(Key::B) }
    else if c == 'C' { Some(Key::C) }
    else if c == 'D' { Some(Key::D) }
    else if c == 'E' { Some(Key::E) }
    else if c == 'F' { Some(Key::F) }
    else if c == 'G' { Some(Key::G) }
    else if c == 'H' { Some(Key::H) }
    else if c == 'I' { Some(Key::I) }
    else if c == 'J' { Some(Key::J) }
    else if c == 'K' { Some(Key::K) }
    else if c == 'L' { Some(Key::L) }
    else if c == 'M' { Some(Key::M) }
    else if c == 'N' { Some(Key::N) }
    else if c == 'O' { Some(Key::O) }
    else if c == 'P' { Some(Key::P) }
    else if c == 'Q' { Some(Key::Q) }
    else if c == 'R' { Some(Key::R) }
    else if c == 'S' { Some(Key::S) }
    else if c == 'T' { Some(Key::T) }
    else if c == 'U' { Some(Key::U) }
    else if c == 'V' { Some(Key::V) }
    else if c == 'W' { Some(Key::W) }
    else if c == 'X' { Some(Key::X) }
    else if c == 'Y' { Some(Key::Y) }
    else if c == 'Z' { Some(Key::Z) }
    else if c == '0' { Some(Key::Num0) }
    else if c == '1' { Some(Key::Num1) }
    else if c == '2' { Some(Key::Num2) }
    else if c == '3' { Some(Key::Num3) }
    else if c == '4' { Some(Key::Num4) }
    else if c == '5' { Some(Key::Num5) }
    else if c == '6' { Some(Key::Num6) }
    else if c == '7' { Some(Key::Num7) }
    else if c == '8' { Some(Key::Num8) }
    else if c == '9' { Some(Key::Num9) }
    else { None }
}

pub open spec fn key_of_name2(s: Seq<char>) -> Option<Key> {
    if s[0] == 'F' && s[1] == '1' { Some(Key::F1) }
    else if s[0] == 'F' && s[1] == '2' { Some(Key::F2) }
    else if s[0] == 'F' && s[1] == '3' { Some(Key::F3) }
    else if s[0] == 'F' && s[1] == '4' { Some(Key::F4) }
    else if s[0] == 'F' && s[1] == '5' { Some(Key::F5) }
    else if s[0] == 'F' && s[1] == '6' { Some(Key::F6) }
    else if s[0] == 'F' && s[1] == '7' { Some(Key::F7) }
    else if s[0] == 'F' && s[1] == '8' { Some(Key::F8) }
    else if s[0] == 'F' && s[1] == '9' { Some(Key::F9) }
    else { None }
}

pub open spec fn key_of_name3(s: Seq<char>) -> Option<Key> {
    if s[0] == 'F' && s[1] == '1' && s[2] == '0' { Some(Key::F10) }
    else if s[0] == 'F' && s[1] == '1' && s[2] == '1' { Some(Key::F11) }
    else if s[0] == 'F' && s[1] == '1' && s[2] == '2' { Some(Key::F12) }
    else if s[0] == 'E' && s[1] == 'S' && s[2] == 'C' { Some(Key::Esc) }
    else if s[0] == 'T' && s[1] == 'A' && s[2] == 'B' { Some(Key::Tab) }
    else if s[0] == 'A' && s[1] == 'L' && s[2] == 'T' { Some(Key::LAlt) }
    else { None }
}

pub open spec fn key_of_name4(s: Seq<char>) -> Option<Key> {
    if s[0] == 'C' && s[1] == 'T' && s[2] == 'R' && s[3] == 'L' { Some(Key::LCtrl) }
    else if s[0] == 'L' && s[1] == 'A' && s[2] == 'L' && s[3] == 'T' { Some(Key::LAlt) }
    else if s[0] == 'R' && s[1] == 'A' && s[2] == 'L' && s[3] == 'T' { Some(Key::RAlt) }
    else if s[0] == 'N' && s[1] == 'U' && s[2] == 'M' && s[3] == '0' { Some(Key::Num0) }
    else if s[0] == 'N' && s[1] == 'U' && s[2] == 'M' && s[3] == '1' { Some(Key::Num1) }
    else if s[0] == 'N' && s[1] == 'U' && s[2] == 'M' && s[3] == '2' { Some(Key::Num2) }
    else if s[0] == 'N' && s[1] == 'U' && s[2] == 'M' && s[3] == '3' { Some(Key::Num3) }
    else if s[0] == 'N' && s[1] == 'U' && s[2] == 'M' && s[3] == '4' { Some(Key::Num4) }
    else if s[0] == 'N' && s[1] == 'U' && s[2] == 'M' && s[3] == '5' { Some(Key::Num5) }
    else if s[0] == 'N' && s[1] == 'U' && s[2] == 'M' && s[3] == '6' { Some(Key::Num6) }
    else if s[0] == 'N' && s[1] == 'U' && s[2] == 'M' && s[3] == '7' { Some(Key::Num7) }
    else if s[0] == 'N' && s[1] == 'U' && s[2] == 'M' && s[3] == '8' { Some(Key::Num8) }
    else if s[0] == 'N' && s[1] == 'U' && s[2] == 'M' && s[3] == '9' { Some(Key::Num9) }
    else { None }
}

pub open spec fn key_of_name5(s: Seq<char>) -> Option<Key> {
    if s[0] == 'L' && s[1] == 'C' && s[2] == 'T' && s[3] == 'R' && s[4] == 'L' { Some(Key::LCtrl) }
    else if s[0] == 'R' && s[1] == 'C' && s[2] == 'T' && s[3] == 'R' && s[4] == 'L' { Some(Key::RCtrl) }
    else if s[0] == 'S' && s[1] == 'H' && s[2] == 'I' && s[3] == 'F' && s[4] == 'T' { Some(Key::LShift) }
    else if s[0] == 'S' && s[1] == 'P' && s[2] == 'A' && s[3] == 'C' && s[4] == 'E' { Some(Key::Space) }
    else if s[0] == 'E' && s[1] == 'N' && s[2] == 'T' && s[3] == 'E' && s[4] == 'R' { Some(Key::Enter) }
    else { None }
}

pub open spec fn key_of_name6(s: Seq<char>) -> Option<Key> {
    if s[0] == 'L' && s[1] == 'S' && s[2] == 'H' && s[3] == 'I' && s[4] == 'F' && s[5] == 'T' { Some(Key::LShift) }
    else if s[0] == 'R' && s[1] == 'S' && s[2] == 'H' && s[3] == 'I' && s[4] == 'F' && s[5] == 'T' { Some(Key::RShift) }
    else if s[0] == 'E' && s[1] == 'S' && s[2] == 'C' && s[3] == 'A' && s[4] == 'P' && s[5] == 'E' { Some(Key::Esc) }
    else { None }
}

pub open spec fn key_of_name7(s: Seq<char>) -> Option<Key> {
    if s[0] == 'N' && s[1] == 'U' && s[2] == 'M' && s[3] == 'P' && s[4] == 'A' && s[5] == 'D' && s[6] == '0' { Some(Key::Numpad0) }
    else if s[0] == 'N' && s[1] == 'U' && s[2] == 'M' && s[3] == 'P' && s[4] == 'A' && s[5] == 'D' && s[6] == '1' { Some(Key::Numpad1) }
    else if s[0] == 'N' && s[1] == 'U' && s[2] == 'M' && s[3] == 'P' && s[4] == 'A' && s[5] == 'D' && s[6] == '2' { Some(Key::Numpad2) }
    else if s[0] == 'N' && s[1] == 'U' && s[2] == 'M' && s[3] == 'P' && s[4] == 'A' && s[5] == 'D' && s[6] == '3' { Some(Key::Numpad3) }
    else if s[0] == 'N' && s[1] == 'U' && s[2] == 'M' && s[3] == 'P' && s[4] == 'A' && s[5] == 'D' && s[6] == '4' { Some(Key::Numpad4) }
    else if s[0] == 'N' && s[1] == 'U' && s[2] == 'M' && s[3] == 'P' && s[4] == 'A' && s[5] == 'D' && s[6] == '5' { Some(Key::Numpad5) }
    else if s[0] == 'N' && s[1] == 'U' && s[2] == 'M' && s[3] == 'P' && s[4] == 'A' && s[5] == 'D' && s[6] == '6' { Some(Key::Numpad6) }
    else if s[0] == 'N' && s[1] == 'U' && s[2] == 'M' && s[3] == 'P' && s[4] == 'A' && s[5] == 'D' && s[6] == '7' { Some(Key::Numpad7) }
    else if s[0] == 'N' && s[1] == 'U' && s[2] == 'M' && s[3] == 'P' && s[4] == 'A' && s[5] == 'D' && s[6] == '8' { Some(Key::Numpad8) }
    else if s[0] == 'N' && s[1] == 'U' && s[2] == 'M' && s[3] == 'P' && s[4] == 'A' && s[5] == 'D' && s[6] == '9' { Some(Key::Numpad9) }
    else { None }
}

pub open spec fn key_of_name8(s: Seq<char>) -> Option<Key> {
    if s[0] == 'L' && s[1] == 'C' && s[2] == 'O' && s[3] == 'N' && s[4] == 'T' && s[5] == 'R' && s[6] == 'O' && s[7] == 'L' { Some(Key::LCtrl) }
    else if s[0] == 'R' && s[1] == 'C' && s[2] == 'O' && s[3] == 'N' && s[4] == 'T' && s[5] == 'R' && s[6] == 'O' && s[7] == 'L' { Some(Key::RCtrl) }
    else { None }
}

/// The key a (trimmed, upper-cased) token names, or `None` for an
/// unrecognized token.
pub open spec fn key_of_name(s: Seq<char>) -> Option<Key> {
    if s.len() == 1 {
        key_of_name1(s[0])
    }
    else if s.len() == 2 {
        key_of_name2(s)
    }
    else if s.len() == 3 {
        key_of_name3(s)
    }
    else if s.len() == 4 {
        key_of_name4(s)
    }
    else if s.len() == 5 {
        key_of_name5(s)
    }
    else if s.len() == 6 {
        key_of_name6(s)
    }
    else if s.len() == 7 {
        key_of_name7(s)
    }
    else if s.len() == 8 {
        key_of_name8(s)
    } else {
        None
    }
}

/// ASCII whitespace, the only whitespace that may surround a key name.
pub open spec fn is_ws_char(c: char) -> bool {
    c == ' ' || c == '\t' || c == '\n' || c == '\r' || c as u32 == 11 || c as u32 == 12
}

/// ASCII upper-casing of one character.
pub open spec fn upper_char(c: char) -> char {
    if 97 <= c as u32 && c as u32 <= 122 {
        ((c as u32 - 32) as u8) as char
    } else {
        c
    }
}

pub open spec fn upper(s: Seq<char>) -> Seq<char> {
    s.map_values(|c: char| upper_char(c))
}

pub open spec fn trim_start_rec(s: Seq<char>) -> Seq<char>
    decreases s.len(),
{
    if s.len() > 0 && is_ws_char(s[0]) {
        trim_start_rec(s.drop_first())
    } else {
        s
    }
}

pub open spec fn trim_end_rec(s: Seq<char>) -> Seq<char>
    decreases s.len(),
{
    if s.len() > 0 && is_ws_char(s.last()) {
        trim_end_rec(s.drop_last())
    } else {
        s
    }
}

pub open spec fn trim_chars(s: Seq<char>) -> Seq<char> {
    trim_end_rec(trim_start_rec(s))
}

/// A raw `+`-separated token, normalized the way the parser sees it.
pub open spec fn norm_token(t: Seq<char>) -> Seq<char> {
    upper(trim_chars(t))
}

/// The modifier keys named by a sequence of tokens; unrecognized tokens are
/// skipped.
pub open spec fn mods_of(parts: Seq<Seq<char>>) -> Seq<Key>
    decreases parts.len(),
{
    if parts.len() == 0 {
        Seq::empty()
    } else {
        let rest = mods_of(parts.drop_last());
        match key_of_name(norm_token(parts.last())) {
            Some(k) => rest.push(k),
            None => rest,
        }
    }
}

/// What parsing a hotkey string yields: the main key named by the last
/// `+`-separated token (if recognized), and the modifier keys named by the
/// earlier tokens.
pub open spec fn spec_parse_hotkey(s: Seq<char>) -> (Option<Key>, Seq<Key>) {
    let parts = split_seq(s, '+');
    (key_of_name(norm_token(parts.last())), mods_of(parts.drop_last()))
}


fn key_from_char(c: char) -> (r: Option<Key>)
    ensures
        r == key_of_name1(c),
{
    if c == 'A' { Some(Key::A) }
    else if c == 'B' { Some(Key::B) }
    else if c == 'C' { Some(Key::C) }
    else if c == 'D' { Some(Key::D) }
    else if c == 'E' { Some(Key::E) }
    else if c == 'F' { Some(Key::F) }
    else if c == 'G' { Some(Key::G) }
    else if c == 'H' { Some(Key::H) }
    else if c == 'I' { Some(Key::I) }
    else if c == 'J' { Some(Key::J) }
    else if c == 'K' { Some(Key::K) }
    else if c == 'L' { Some(Key::L) }
    else if c == 'M' { Some(Key::M) }
    else if c == 'N' { Some(Key::N) }
    else if c == 'O' { Some(Key::O) }
    else if c == 'P' { Some(Key::P) }
    else if c == 'Q' { Some(Key::Q) }
    else if c == 'R' { Some(Key::R) }
    else if c == 'S' { Some(Key::S) }
    else if c == 'T' { Some(Key::T) }
    else if c == 'U' { Some(Key::U) }
    else if c == 'V' { Some(Key::V) }
    else if c == 'W' { Some(Key::W) }
    else if c == 'X' { Some(Key::X) }
    else if c == 'Y' { Some(Key::Y) }
    else if c == 'Z' { Some(Key::Z) }
    else if c == '0' { Some(Key::Num0) }
    else if c == '1' { Some(Key::Num1) }
    else if c == '2' { Some(Key::Num2) }
    else if c == '3' { Some(Key::Num3) }
    else if c == '4' { Some(Key::Num4) }
    else if c == '5' { Some(Key::Num5) }
    else if c == '6' { Some(Key::Num6) }
    else if c == '7' { Some(Key::Num7) }
    else if c == '8' { Some(Key::Num8) }
    else if c == '9' { Some(Key::Num9) }
    else { None }
}

fn key_from_token2(tok: &Vec<char>) -> (r: Option<Key>)
    requires
        tok@.len() == 2,
    ensures
        r == key_of_name2(tok@),
{
    if tok[0] == 'F' && tok[1] == '1' { Some(Key::F1) }
    else if tok[0] == 'F' && tok[1] == '2' { Some(Key::F2) }
    else if tok[0] == 'F' && tok[1] == '3' { Some(Key::F3) }
    else if tok[0] == 'F' && tok[1] == '4' { Some(Key::F4) }
    else if tok[0] == 'F' && tok[1] == '5' { Some(Key::F5) }
    else if tok[0] == 'F' && tok[1] == '6' { Some(Key::F6) }
    else if tok[0] == 'F' && tok[1] == '7' { Some(Key::F7) }
    else if tok[0] == 'F' && tok[1] == '8' { Some(Key::F8) }
    else if tok[0] == 'F' && tok[1] == '9' { Some(Key::F9) }
    else { None }
}

fn key_from_token3(tok: &Vec<char>) -> (r: Option<Key>)
    requires
        tok@.len() == 3,
    ensures
        r == key_of_name3(tok@),
{
    if tok[0] == 'F' && tok[1] == '1' && tok[2] == '0' { Some(Key::F10) }
    else if tok[0] == 'F' && tok[1] == '1' && tok[2] == '1' { Some(Key::F11) }
    else if tok[0] == 'F' && tok[1] == '1' && tok[2] == '2' { Some(Key::F12) }
    else if tok[0] == 'E' && tok[1] == 'S' && tok[2] == 'C' { Some(Key::Esc) }
    else if tok[0] == 'T' && tok[1] == 'A' && tok[2] == 'B' { Some(Key::Tab) }
    else if tok[0] == 'A' && tok[1] == 'L' && tok[2] == 'T' { Some(Key::LAlt) }
    else { None }
}

fn key_from_token4(tok: &Vec<char>) -> (r: Option<Key>)
    requires
        tok@.len() == 4,
    ensures
        r == key_of_name4(tok@),
{
    if tok[0] == 'C' && tok[1] == 'T' && tok[2] == 'R' && tok[3] == 'L' { Some(Key::LCtrl) }
    else if tok[0] == 'L' && tok[1] == 'A' && tok[2] == 'L' && tok[3] == 'T' { Some(Key::LAlt) }
    else if tok[0] == 'R' && tok[1] == 'A' && tok[2] == 'L' && tok[3] == 'T' { Some(Key::RAlt) }
    else if tok[0] == 'N' && tok[1] == 'U' && tok[2] == 'M' && tok[3] == '0' { Some(Key::Num0) }
    else if tok[0] == 'N' && tok[1] == 'U' && tok[2] == 'M' && tok[3] == '1' { Some(Key::Num1) }
    else if tok[0] == 'N' && tok[1] == 'U' && tok[2] == 'M' && tok[3] == '2' { Some(Key::Num2) }
    else if tok[0] == 'N' && tok[1] == 'U' && tok[2] == 'M' && tok[3] == '3' { Some(Key::Num3) }
    else if tok[0] == 'N' && tok[1] == 'U' && tok[2] == 'M' && tok[3] == '4' { Some(Key::Num4) }
    else if tok[0] == 'N' && tok[1] == 'U' && tok[2] == 'M' && tok[3] == '5' { Some(Key::Num5) }
    else if tok[0] == 'N' && tok[1] == 'U' && tok[2] == 'M' && tok[3] == '6' { Some(Key::Num6) }
    else if tok[0] == 'N' && tok[1] == 'U' && tok[2] == 'M' && tok[3] == '7' { Some(Key::Num7) }
    else if tok[0] == 'N' && tok[1] == 'U' && tok[2] == 'M' && tok[3] == '8' { Some(Key::Num8) }
    else if tok[0] == 'N' && tok[1] == 'U' && tok[2] == 'M' && tok[3] == '9' { Some(Key::Num9) }
    else { None }
}

fn key_from_token5(tok: &Vec<char>) -> (r: Option<Key>)
    requires
        tok@.len() == 5,
    ensures
        r == key_of_name5(tok@),
{
    if tok[0] == 'L' && tok[1] == 'C' && tok[2] == 'T' && tok[3] == 'R' && tok[4] == 'L' { Some(Key::LCtrl) }
    else if tok[0] == 'R' && tok[1] == 'C' && tok[2] == 'T' && tok[3] == 'R' && tok[4] == 'L' { Some(Key::RCtrl) }
    else if tok[0] == 'S' && tok[1] == 'H' && tok[2] == 'I' && tok[3] == 'F' && tok[4] == 'T' { Some(Key::LShift) }
    else if tok[0] == 'S' && tok[1] == 'P' && tok[2] == 'A' && tok[3] == 'C' && tok[4] == 'E' { Some(Key::Space) }
    else if tok[0] == 'E' && tok[1] == 'N' && tok[2] == 'T' && tok[3] == 'E' && tok[4] == 'R' { Some(Key::Enter) }
    else { None }
}

fn key_from_token6(tok: &Vec<char>) -> (r: Option<Key>)
    requires
        tok@.len() == 6,
    ensures
        r == key_of_name6(tok@),
{
    if tok[0] == 'L' && tok[1] == 'S' && tok[2] == 'H' && tok[3] == 'I' && tok[4] == 'F' && tok[5] == 'T' { Some(Key::LShift) }
    else if tok[0] == 'R' && tok[1] == 'S' && tok[2] == 'H' && tok[3] == 'I' && tok[4] == 'F' && tok[5] == 'T' { Some(Key::RShift) }
    else if tok[0] == 'E' && tok[1] == 'S' && tok[2] == 'C' && tok[3] == 'A' && tok[4] == 'P' && tok[5] == 'E' { Some(Key::Esc) }
    else { None }
}

fn key_from_token7(tok: &Vec<char>) -> (r: Option<Key>)
    requires
        tok@.len() == 7,
    ensures
        r == key_of_name7(tok@),
{
    if tok[0] == 'N' && tok[1] == 'U' && tok[2] == 'M' && tok[3] == 'P' && tok[4] == 'A' && tok[5] == 'D' && tok[6] == '0' { Some(Key::Numpad0) }
    else if tok[0] == 'N' && tok[1] == 'U' && tok[2] == 'M' && tok[3] == 'P' && tok[4] == 'A' && tok[5] == 'D' && tok[6] == '1' { Some(Key::Numpad1) }
    else if tok[0] == 'N' && tok[1] == 'U' && tok[2] == 'M' && tok[3] == 'P' && tok[4] == 'A' && tok[5] == 'D' && tok[6] == '2' { Some(Key::Numpad2) }
    else if tok[0] == 'N' && tok[1] == 'U' && tok[2] == 'M' && tok[3] == 'P' && tok[4] == 'A' && tok[5] == 'D' && tok[6] == '3' { Some(Key::Numpad3) }
    else if tok[0] == 'N' && tok[1] == 'U' && tok[2] == 'M' && tok[3] == 'P' && tok[4] == 'A' && tok[5] == 'D' && tok[6] == '4' { Some(Key::Numpad4) }
    else if tok[0] == 'N' && tok[1] == 'U' && tok[2] == 'M' && tok[3] == 'P' && tok[4] == 'A' && tok[5] == 'D' && tok[6] == '5' { Some(Key::Numpad5) }
    else if tok[0] == 'N' && tok[1] == 'U' && tok[2] == 'M' && tok[3] == 'P' && tok[4] == 'A' && tok[5] == 'D' && tok[6] == '6' { Some(Key::Numpad6) }
    else if tok[0] == 'N' && tok[1] == 'U' && tok[2] == 'M' && tok[3] == 'P' && tok[4] == 'A' && tok[5] == 'D' && tok[6] == '7' { Some(Key::Numpad7) }
    else if tok[0] == 'N' && tok[1] == 'U' && tok[2] == 'M' && tok[3] == 'P' && tok[4] == 'A' && tok[5] == 'D' && tok[6] == '8' { Some(Key::Numpad8) }
    else if tok[0] == 'N' && tok[1] == 'U' && tok[2] == 'M' && tok[3] == 'P' && tok[4] == 'A' && tok[5] == 'D' && tok[6] == '9' { Some(Key::Numpad9) }
    else { None }
}

fn key_from_token8(tok: &Vec<char>) -> (r: Option<Key>)
    requires
        tok@.len() == 8,
    ensures
        r == key_of_name8(tok@),
{
    if tok[0] == 'L' && tok[1] == 'C' && tok[2] == 'O' && tok[3] == 'N' && tok[4] == 'T' && tok[5] == 'R' && tok[6] == 'O' && tok[7] == 'L' { Some(Key::LCtrl) }
    else if tok[0] == 'R' && tok[1] == 'C' && tok[2] == 'O' && tok[3] == 'N' && tok[4] == 'T' && tok[5] == 'R' && tok[6] == 'O' && tok[7] == 'L' { Some(Key::RCtrl) }
    else { None }
}

/// The key a normalized token names, per the name table.
fn key_from_token(tok: &Vec<char>) -> (r: Option<Key>)
    ensures
        r == key_of_name(tok@),
{
    let n = tok.len();
    if n == 1 {
        key_from_char(tok[0])
    }
    else if n == 2 {
        key_from_token2(tok)
    }
    else if n == 3 {
        key_from_token3(tok)
    }
    else if n == 4 {
        key_from_token4(tok)
    }
    else if n == 5 {
        key_from_token5(tok)
    }
    else if n == 6 {
        key_from_token6(tok)
    }
    else if n == 7 {
        key_from_token7(tok)
    }
    else if n == 8 {
        key_from_token8(tok)
    } else {
        None
    }
}

fn char_upper(c: char) -> (r: char)
    ensures
        r == upper_char(c),
{
    let u = c as u32;
    if 97 <= u && u <= 122 {
        ((u - 32) as u8) as char
    } else {
        c
    }
}

/// Trim ASCII whitespace from both ends and upper-case the rest.
fn normalize_token(tok: &Vec<char>) -> (r: Vec<char>)
    ensures
        r@ == norm_token(tok@),
{
    let n = tok.len();
    let mut lo: usize = 0;
    proof {
        assert(tok@.skip(0) =~= tok@);
    }
    while lo < n && (tok[lo] == ' ' || tok[lo] == '\t' || tok[lo] == '\n' || tok[lo] == '\r'
        || tok[lo] as u32 == 11 || tok[lo] as u32 == 12)
        invariant
            lo <= n,
            n == tok@.len(),
            trim_start_rec(tok@) == trim_start_rec(tok@.skip(lo as int)),
        decreases n - lo,
    {
        proof {
            assert(tok@.skip(lo as int).drop_first() =~= tok@.skip(lo as int + 1));
        }
        lo += 1;
    }
    proof {
        assert(trim_start_rec(tok@) == tok@.skip(lo as int));
    }
    let mut hi: usize = n;
    proof {
        assert(tok@.skip(lo as int) =~= tok@.subrange(lo as int, n as int));
    }
    while hi > lo && (tok[hi - 1] == ' ' || tok[hi - 1] == '\t' || tok[hi - 1] == '\n'
        || tok[hi - 1] == '\r' || tok[hi - 1] as u32 == 11 || tok[hi - 1] as u32 == 12)
        invariant
            lo <= hi <= n,
            n == tok@.len(),
            trim_start_rec(tok@) == tok@.skip(lo as int),
            trim_end_rec(tok@.skip(lo as int)) == trim_end_rec(tok@.subrange(lo as int, hi as int)),
        decreases hi,
    {
        proof {
            assert(tok@.subrange(lo as int, hi as int).drop_last() =~= tok@.subrange(
                lo as int,
                hi as int - 1,
            ));
            assert(tok@.subrange(lo as int, hi as int).last() == tok@[hi as int - 1]);
        }
        hi -= 1;
    }
    proof {
        assert(trim_chars(tok@) == tok@.subrange(lo as int, hi as int));
    }
    let mut r: Vec<char> = Vec::new();
    let mut k: usize = lo;
    while k < hi
        invariant
            lo <= k <= hi <= n,
            n == tok@.len(),
            trim_chars(tok@) == tok@.subrange(lo as int, hi as int),
            r@ == upper(tok@.subrange(lo as int, k as int)),
        decreases hi - k,
    {
        r.push(char_upper(tok[k]));
        proof {
            assert(upper(tok@.subrange(lo as int, k as int + 1)) =~= upper(
                tok@.subrange(lo as int, k as int),
            ).push(upper_char(tok@[k as int])));
        }
        k += 1;
    }
    r
}

/// Split a character sequence on `+`.
fn split_plus(cs: &Vec<char>) -> (parts: Vec<Vec<char>>)
    ensures
        views_of(parts@) == split_seq(cs@, '+'),
{
    let n = cs.len();
    let mut parts: Vec<Vec<char>> = Vec::new();
    let mut cur: Vec<char> = Vec::new();
    let ghost mut start: int = 0;
    let mut i: usize = 0;
    proof {
        assert(views_of(parts@) =~= Seq::<Seq<char>>::empty());
        assert(cur@ =~= cs@.subrange(0, 0));
        assert(cs@.skip(0) =~= cs@);
        assert(views_of(parts@) + split_seq(cs@, '+') =~= split_seq(cs@, '+'));
    }
    while i < n
        invariant
            i <= n,
            n == cs@.len(),
            0 <= start <= i as int,
            cur@ == cs@.subrange(start, i as int),
            forall|j: int| start <= j < i as int ==> cs@[j] != '+',
            views_of(parts@) + split_seq(cs@.skip(start), '+') == split_seq(cs@, '+'),
        decreases n - i,
    {
        if cs[i] == '+' {
            proof {
                lemma_split_step(cs@.skip(start), '+', i as int - start);
                assert(cs@.skip(start).take(i as int - start) =~= cs@.subrange(start, i as int));
                assert(cs@.skip(start).skip(i as int - start + 1) =~= cs@.skip(i as int + 1));
            }
            parts.push(cur);
            cur = Vec::new();
            proof {
                assert(views_of(parts@) =~= views_of(parts@.drop_last()).push(
                    parts@.last()@,
                ));
                assert(views_of(parts@) + split_seq(cs@.skip(i as int + 1), '+') =~= split_seq(
                    cs@,
                    '+',
                ));
                start = i as int + 1;
                assert(cur@ =~= cs@.subrange(start, i as int + 1));
            }
        } else {
            cur.push(cs[i]);
            proof {
                assert(cur@ =~= cs@.subrange(start, i as int + 1));
            }
        }
        i += 1;
    }
    proof {
        lemma_split_whole(cs@.skip(start), '+');
        assert(cs@.skip(start) =~= cs@.subrange(start, n as int));
    }
    parts.push(cur);
    proof {
        assert(views_of(parts@) =~= views_of(parts@.drop_last()).push(parts@.last()@));
        assert(views_of(parts@) =~= split_seq(cs@, '+'));
    }
    parts
}

/// The key a single textual key name refers to, after upper-casing it, or
/// `None` for a name outside the table.
pub fn key_string_to_keybdkey(key_str: &str) -> (r: Option<Key>)
    ensures
        r == key_of_name(upper(key_str@)),
{
    let cs = str_chars(key_str);
    let n = cs.len();
    let mut up: Vec<char> = Vec::new();
    let mut i: usize = 0;
    while i < n
        invariant
            i <= n,
            n == cs@.len(),
            cs@ == key_str@,
            up@ == upper(cs@.take(i as int)),
        decreases n - i,
    {
        up.push(char_upper(cs[i]));
        proof {
            assert(upper(cs@.take(i as int + 1)) =~= upper(cs@.take(i as int)).push(
                upper_char(cs@[i as int]),
            ));
        }
        i += 1;
    }
    proof {
        assert(cs@.take(n as int) =~= cs@);
    }
    key_from_token(&up)
}

/// Parse a hotkey string `MOD1+...+MAINKEY`: the last token names the main
/// key, the earlier tokens name the modifiers; unrecognized modifier tokens
/// are skipped and an unrecognized main key yields `None`.
pub fn parse_hotkey_config(hotkey_str: &str) -> (r: (Option<Key>, Vec<Key>))
    ensures
        r.0 == spec_parse_hotkey(hotkey_str@).0,
        r.1@ == spec_parse_hotkey(hotkey_str@).1,
{
    let cs = str_chars(hotkey_str);
    let parts = split_plus(&cs);
    proof {
        lemma_split_len_pos(cs@, '+');
        assert(views_of(parts@).len() == parts@.len());
    }
    let n = parts.len();
    let ghost sp = split_seq(cs@, '+');
    let mut mods: Vec<Key> = Vec::new();
    let mut j: usize = 0;
    proof {
        assert(sp.take(0) =~= Seq::<Seq<char>>::empty());
    }
    while j + 1 < n
        invariant
            1 <= n,
            j < n,
            n == parts@.len(),
            n == sp.len(),
            views_of(parts@) == sp,
            sp == split_seq(cs@, '+'),
            cs@ == hotkey_str@,
            mods@ == mods_of(sp.take(j as int)),
        decreases n - j,
    {
        let t = normalize_token(&parts[j]);
        proof {
            assert(parts@[j as int]@ == sp[j as int]);
            assert(sp.take(j as int + 1).drop_last() =~= sp.take(j as int));
            assert(sp.take(j as int + 1).last() == sp[j as int]);
        }
        match key_from_token(&t) {
            Some(k) => { mods.push(k); },
            None => {},
        }
        j += 1;
    }
    let t = normalize_token(&parts[n - 1]);
    let main = key_from_token(&t);
    proof {
        assert(parts@[n - 1]@ == sp[n - 1]);
        assert(sp.last() == sp[n - 1]);
        assert(sp.take(n - 1) =~= sp.drop_last());
        assert(mods@ == mods_of(sp.drop_last()));
    }
    (main, mods)
}



/// The canonical name of a key, as characters.
fn key_name_chars(k: Key) -> (v: Vec<char>)
    ensures
        v@ == key_name(k),
{
    let mut v: Vec<char> = Vec::new();
    match k {
        Key::F1 => {
            v.push('F');
            v.push('1');
            proof {
                assert(v@ =~= key_name(Key::F1));
            }
        }
        Key::F2 => {
            v.push('F');
            v.push('2');
            proof {
                assert(v@ =~= key_name(Key::F2));
            }
        }
        Key::F3 => {
            v.push('F');
            v.push('3');
            proof {
                assert(v@ =~= key_name(Key::F3));
            }
        }
        Key::F4 => {
            v.push('F');
            v.push('4');
            proof {
                assert(v@ =~= key_name(Key::F4));
            }
        }
        Key::F5 => {
            v.push('F');
            v.push('5');
            proof {
                assert(v@ =~= key_name(Key::F5));
            }
        }
        Key::F6 => {
            v.push('F');
            v.push('6');
            proof {
                assert(v@ =~= key_name(Key::F6));
            }
        }
        Key::F7 => {
            v.push('F');
            v.push('7');
            proof {
                assert(v@ =~= key_name(Key::F7));
            }
        }
        Key::F8 => {
            v.push('F');
            v.push('8');
            proof {
                assert(v@ =~= key_name(Key::F8));
            }
        }
        Key::F9 => {
            v.push('F');
            v.push('9');
            proof {
                assert(v@ =~= key_name(Key::F9));
            }
        }
        Key::F10 => {
            v.push('F');
            v.push('1');
            v.push('0');
            proof {
                assert(v@ =~= key_name(Key::F10));
            }
        }
        Key::F11 => {
            v.push('F');
            v.push('1');
            v.push('1');
            proof {
                assert(v@ =~= key_name(Key::F11));
            }
        }
        Key::F12 => {
            v.push('F');
            v.push('1');
            v.push('2');
            proof {
                assert(v@ =~= key_name(Key::F12));
            }
        }
        Key::A => {
            v.push('A');
            proof {
                assert(v@ =~= key_name(Key::A));
            }
        }
        Key::B => {
            v.push('B');
            proof {
                assert(v@ =~= key_name(Key::B));
            }
        }
        Key::C => {
            v.push('C');
            proof {
                assert(v@ =~= key_name(Key::C));
            }
        }
        Key::D => {
            v.push('D');
            proof {
                assert(v@ =~= key_name(Key::D));
            }
        }
        Key::E => {
            v.push('E');
            proof {
                assert(v@ =~= key_name(Key::E));
            }
        }
        Key::F => {
            v.push('F');
            proof {
                assert(v@ =~= key_name(Key::F));
            }
        }
        Key::G => {
            v.push('G');
            proof {
                assert(v@ =~= key_name(Key::G));
            }
        }
        Key::H => {
            v.push('H');
            proof {
                assert(v@ =~= key_name(Key::H));
            }
        }
        Key::I => {
            v.push('I');
            proof {
                assert(v@ =~= key_name(Key::I));
            }
        }
        Key::J => {
            v.push('J');
            proof {
                assert(v@ =~= key_name(Key::J));
            }
        }
        Key::K => {
            v.push('K');
            proof {
                assert(v@ =~= key_name(Key::K));
            }
        }
        Key::L => {
            v.push('L');
            proof {
                assert(v@ =~= key_name(Key::L));
            }
        }
        Key::M => {
            v.push('M');
            proof {
                assert(v@ =~= key_name(Key::M));
            }
        }
        Key::N => {
            v.push('N');
            proof {
                assert(v@ =~= key_name(Key::N));
            }
        }
        Key::O => {
            v.push('O');
            proof {
                assert(v@ =~= key_name(Key::O));
            }
        }
        Key::P => {
            v.push('P');
            proof {
                assert(v@ =~= key_name(Key::P));
            }
        }
        Key::Q => {
            v.push('Q');
            proof {
                assert(v@ =~= key_name(Key::Q));
            }
        }
        Key::R => {
            v.push('R');
            proof {
                assert(v@ =~= key_name(Key::R));
            }
        }
        Key::S => {
            v.push('S');
            proof {
                assert(v@ =~= key_name(Key::S));
            }
        }
        Key::T => {
            v.push('T');
            proof {
                assert(v@ =~= key_name(Key::T));
            }
        }
        Key::U => {
            v.push('U');
            proof {
                assert(v@ =~= key_name(Key::U));
            }
        }
        Key::V => {
            v.push('V');
            proof {
                assert(v@ =~= key_name(Key::V));
            }
        }
        Key::W => {
            v.push('W');
            proof {
                assert(v@ =~= key_name(Key::W));
            }
        }
        Key::X => {
            v.push('X');
            proof {
                assert(v@ =~= key_name(Key::X));
            }
        }
        Key::Y => {
            v.push('Y');
            proof {
                assert(v@ =~= key_name(Key::Y));
            }
        }
        Key::Z => {
            v.push('Z');
            proof {
                assert(v@ =~= key_name(Key::Z));
            }
        }
        Key::Num0 => {
            v.push('0');
            proof {
                assert(v@ =~= key_name(Key::Num0));
            }
        }
        Key::Num1 => {
            v.push('1');
            proof {
                assert(v@ =~= key_name(Key::Num1));
            }
        }
        Key::Num2 => {
            v.push('2');
            proof {
                assert(v@ =~= key_name(Key::Num2));
            }
        }
        Key::Num3 => {
            v.push('3');
            proof {
                assert(v@ =~= key_name(Key::Num3));
            }
        }
        Key::Num4 => {
            v.push('4');
            proof {
                assert(v@ =~= key_name(Key::Num4));
            }
        }
        Key::Num5 => {
            v.push('5');
            proof {
                assert(v@ =~= key_name(Key::Num5));
            }
        }
        Key::Num6 => {
            v.push('6');
            proof {
                assert(v@ =~= key_name(Key::Num6));
            }
        }
        Key::Num7 => {
            v.push('7');
            proof {
                assert(v@ =~= key_name(Key::Num7));
            }
        }
        Key::Num8 => {
            v.push('8');
            proof {
                assert(v@ =~= key_name(Key::Num8));
            }
        }
        Key::Num9 => {
            v.push('9');
            proof {
                assert(v@ =~= key_name(Key::Num9));
            }
        }
        Key::Numpad0 => {
            v.push('N');
            v.push('U');
            v.push('M');
            v.push('P');
            v.push('A');
            v.push('D');
            v.push('0');
            proof {
                assert(v@ =~= key_name(Key::Numpad0));
            }
        }
        Key::Numpad1 => {
            v.push('N');
            v.push('U');
            v.push('M');
            v.push('P');
            v.push('A');
            v.push('D');
            v.push('1');
            proof {
                assert(v@ =~= key_name(Key::Numpad1));
            }
        }
        Key::Numpad2 => {
            v.push('N');
            v.push('U');
            v.push('M');
            v.push('P');
            v.push('A');
            v.push('D');
            v.push('2');
            proof {
                assert(v@ =~= key_name(Key::Numpad2));
            }
        }
        Key::Numpad3 => {
            v.push('N');
            v.push('U');
            v.push('M');
            v.push('P');
            v.push('A');
            v.push('D');
            v.push('3');
            proof {
                assert(v@ =~= key_name(Key::Numpad3));
            }
        }
        Key::Numpad4 => {
            v.push('N');
            v.push('U');
            v.push('M');
            v.push('P');
            v.push('A');
            v.push('D');
            v.push('4');
            proof {
                assert(v@ =~= key_name(Key::Numpad4));
            }
        }
        Key::Numpad5 => {
            v.push('N');
            v.push('U');
            v.push('M');
            v.push('P');
            v.push('A');
            v.push('D');
            v.push('5');
            proof {
                assert(v@ =~= key_name(Key::Numpad5));
            }
        }
        Key::Numpad6 => {
            v.push('N');
            v.push('U');
            v.push('M');
            v.push('P');
            v.push('A');
            v.push('D');
            v.push('6');
            proof {
                assert(v@ =~= key_name(Key::Numpad6));
            }
        }
        Key::Numpad7 => {
            v.push('N');
            v.push('U');
            v.push('M');
            v.push('P');
            v.push('A');
            v.push('D');
            v.push('7');
            proof {
                assert(v@ =~= key_name(Key::Numpad7));
            }
        }
        Key::Numpad8 => {
            v.push('N');
            v.push('U');
            v.push('M');
            v.push('P');
            v.push('A');
            v.push('D');
            v.push('8');
            proof {
                assert(v@ =~= key_name(Key::Numpad8));
            }
        }
        Key::Numpad9 => {
            v.push('N');
            v.push('U');
            v.push('M');
            v.push('P');
            v.push('A');
            v.push('D');
            v.push('9');
            proof {
                assert(v@ =~= key_name(Key::Numpad9));
            }
        }
        Key::LCtrl => {
            v.push('L');
            v.push('C');
            v.push('T');
            v.push('R');
            v.push('L');
            proof {
                assert(v@ =~= key_name(Key::LCtrl));
            }
        }
        Key::RCtrl => {
            v.push('R');
            v.push('C');
            v.push('T');
            v.push('R');
            v.push('L');
            proof {
                assert(v@ =~= key_name(Key::RCtrl));
            }
        }
        Key::LShift => {
            v.push('L');
            v.push('S');
            v.push('H');
            v.push('I');
            v.push('F');
            v.push('T');
            proof {
                assert(v@ =~= key_name(Key::LShift));
            }
        }
        Key::RShift => {
            v.push('R');
            v.push('S');
            v.push('H');
            v.push('I');
            v.push('F');
            v.push('T');
            proof {
                assert(v@ =~= key_name(Key::RShift));
            }
        }
        Key::LAlt => {
            v.push('L');
            v.push('A');
            v.push('L');
            v.push('T');
            proof {
                assert(v@ =~= key_name(Key::LAlt));
            }
        }
        Key::RAlt => {
            v.push('R');
            v.push('A');
            v.push('L');
            v.push('T');
            proof {
                assert(v@ =~= key_name(Key::RAlt));
            }
        }
        Key::Esc => {
            v.push('E');
            v.push('S');
            v.push('C');
            proof {
                assert(v@ =~= key_name(Key::Esc));
            }
        }
        Key::Space => {
            v.push('S');
            v.push('P');
            v.push('A');
            v.push('C');
            v.push('E');
            proof {
                assert(v@ =~= key_name(Key::Space));
            }
        }
        Key::Enter => {
            v.push('E');
            v.push('N');
            v.push('T');
            v.push('E');
            v.push('R');
            proof {
                assert(v@ =~= key_name(Key::Enter));
            }
        }
        Key::Tab => {
            v.push('T');
            v.push('A');
            v.push('B');
            proof {
                assert(v@ =~= key_name(Key::Tab));
            }
        }
    }
    v
}

/// The canonical serialized form of a chord: each modifier name, then the
/// main key name, joined with `+`.
pub open spec fn spec_format_hotkey(main: Key, mods: Seq<Key>) -> Seq<char>
    decreases mods.len(),
{
    if mods.len() == 0 {
        key_name(main)
    } else {
        key_name(mods[0]) + seq!['+'] + spec_format_hotkey(main, mods.drop_first())
    }
}

/// Serialize a chord back to its textual `MOD1+...+MAINKEY` form.
pub fn format_hotkey(main: Key, mods: &Vec<Key>) -> (r: String)
    ensures
        r@ == spec_format_hotkey(main, mods@),
{
    let mut v: Vec<char> = Vec::new();
    let mut i: usize = 0;
    proof {
        assert(mods@.skip(0) =~= mods@);
        assert(v@ + spec_format_hotkey(main, mods@) =~= spec_format_hotkey(main, mods@));
    }
    while i < mods.len()
        invariant
            i <= mods@.len(),
            v@ + spec_format_hotkey(main, mods@.skip(i as int)) == spec_format_hotkey(
                main,
                mods@,
            ),
        decreases mods@.len() - i,
    {
        let mut name = key_name_chars(mods[i]);
        v.append(&mut name);
        v.push('+');
        proof {
            assert(mods@.skip(i as int).drop_first() =~= mods@.skip(i as int + 1));
            assert(mods@.skip(i as int)[0] == mods@[i as int]);
            assert(v@ + spec_format_hotkey(main, mods@.skip(i as int + 1)) =~= spec_format_hotkey(
                main,
                mods@,
            ));
        }
        i += 1;
    }
    let mut name = key_name_chars(main);
    v.append(&mut name);
    proof {
        assert(mods@.skip(i as int) =~= Seq::<Key>::empty());
        assert(v@ =~= spec_format_hotkey(main, mods@));
    }
    crate::scan::chars_to_string(&v)
}

/// Every canonical key name parses back to its key, is non-empty, and
/// contains no separator, no whitespace and no lower-case letter.
pub proof fn lemma_key_name_ok(k: Key)
    ensures
        key_of_name(key_name(k)) == Some(k),
        key_name(k).len() > 0,
        forall|i: int|
            0 <= i < key_name(k).len() ==> key_name(k)[i] != '+' && !is_ws_char(key_name(k)[i])
                && upper_char(key_name(k)[i]) == key_name(k)[i],
{
    match k {
        Key::F1 => {}
        Key::F2 => {}
        Key::F3 => {}
        Key::F4 => {}
        Key::F5 => {}
        Key::F6 => {}
        Key::F7 => {}
        Key::F8 => {}
        Key::F9 => {}
        Key::F10 => {}
        Key::F11 => {}
        Key::F12 => {}
        Key::A => {}
        Key::B => {}
        Key::C => {}
        Key::D => {}
        Key::E => {}
        Key::F => {}
        Key::G => {}
        Key::H => {}
        Key::I => {}
        Key::J => {}
        Key::K => {}
        Key::L => {}
        Key::M => {}
        Key::N => {}
        Key::O => {}
        Key::P => {}
        Key::Q => {}
        Key::R => {}
        Key::S => {}
        Key::T => {}
        Key::U => {}
        Key::V => {}
        Key::W => {}
        Key::X => {}
        Key::Y => {}
        Key::Z => {}
        Key::Num0 => {}
        Key::Num1 => {}
        Key::Num2 => {}
        Key::Num3 => {}
        Key::Num4 => {}
        Key::Num5 => {}
        Key::Num6 => {}
        Key::Num7 => {}
        Key::Num8 => {}
        Key::Num9 => {}
        Key::Numpad0 => {}
        Key::Numpad1 => {}
        Key::Numpad2 => {}
        Key::Numpad3 => {}
        Key::Numpad4 => {}
        Key::Numpad5 => {}
        Key::Numpad6 => {}
        Key::Numpad7 => {}
        Key::Numpad8 => {}
        Key::Numpad9 => {}
        Key::LCtrl => {}
        Key::RCtrl => {}
        Key::LShift => {}
        Key::RShift => {}
        Key::LAlt => {}
        Key::RAlt => {}
        Key::Esc => {}
        Key::Space => {}
        Key::Enter => {}
        Key::Tab => {}
    }
}

/// A canonical key name is untouched by token normalization.
pub proof fn lemma_norm_name(k: Key)
    ensures
        norm_token(key_name(k)) == key_name(k),
{
    lemma_key_name_ok(k);
    let s = key_name(k);
    assert(!is_ws_char(s[0]));
    assert(!is_ws_char(s.last()));
    assert(trim_start_rec(s) == s);
    assert(trim_end_rec(s) == s);
    assert(upper(s) =~= s);
}

proof fn lemma_mods_of_prepend(t: Seq<char>, ps: Seq<Seq<char>>)
    ensures
        key_of_name(norm_token(t)) is Some ==> mods_of(seq![t] + ps) == seq![
            key_of_name(norm_token(t))->Some_0,
        ] + mods_of(ps),
        key_of_name(norm_token(t)) is None ==> mods_of(seq![t] + ps) == mods_of(ps),
    decreases ps.len(),
{
    if ps.len() == 0 {
        assert(seq![t] + ps =~= seq![t]);
        assert((seq![t]).drop_last() =~= Seq::<Seq<char>>::empty());
        assert(mods_of(Seq::<Seq<char>>::empty()) == Seq::<Key>::empty());
        assert(mods_of(ps) == Seq::<Key>::empty());
        assert((seq![t]).last() == t);
        match key_of_name(norm_token(t)) {
            Some(k) => {
                assert(mods_of(seq![t]) =~= seq![k] + mods_of(ps));
            },
            None => {
                assert(mods_of(seq![t]) =~= mods_of(ps));
            },
        }
    } else {
        lemma_mods_of_prepend(t, ps.drop_last());
        assert((seq![t] + ps).drop_last() =~= seq![t] + ps.drop_last());
        assert((seq![t] + ps).last() == ps.last());
        if key_of_name(norm_token(t)) is Some {
            let k0 = key_of_name(norm_token(t))->Some_0;
            match key_of_name(norm_token(ps.last())) {
                Some(k) => {
                    assert((seq![k0] + mods_of(ps.drop_last())).push(k) =~= seq![k0] + mods_of(
                        ps.drop_last(),
                    ).push(k));
                },
                None => {},
            }
        }
    }
}

/// Round trip: serializing a chord and parsing the result yields exactly
/// the same main key and the same modifier keys, in the same order.
pub proof fn lemma_hotkey_roundtrip(main: Key, mods: Seq<Key>)
    ensures
        spec_parse_hotkey(spec_format_hotkey(main, mods)).0 == Some(main),
        spec_parse_hotkey(spec_format_hotkey(main, mods)).1 == mods,
    decreases mods.len(),
{
    let s = spec_format_hotkey(main, mods);
    if mods.len() == 0 {
        lemma_key_name_ok(main);
        lemma_norm_name(main);
        lemma_split_whole(s, '+');
        let parts = split_seq(s, '+');
        assert(parts.last() == s);
        assert(parts.drop_last() =~= Seq::<Seq<char>>::empty());
        assert(mods =~= Seq::<Key>::empty());
    } else {
        let m = key_name(mods[0]);
        let rest = spec_format_hotkey(main, mods.drop_first());
        lemma_key_name_ok(mods[0]);
        lemma_norm_name(mods[0]);
        let i = m.len() as int;
        assert(s == m + seq!['+'] + rest);
        assert(s[i] == '+') by {
            assert((m + seq!['+'])[i] == '+');
        }
        assert forall|j: int| 0 <= j < i implies s[j] != '+' by {
            assert(s[j] == m[j]);
        }
        lemma_split_step(s, '+', i);
        assert(s.take(i) =~= m);
        assert(s.skip(i + 1) =~= rest);
        lemma_hotkey_roundtrip(main, mods.drop_first());
        let parts = split_seq(s, '+');
        let rparts = split_seq(rest, '+');
        lemma_split_len_pos(rest, '+');
        assert(parts =~= seq![m] + rparts);
        assert(parts.last() == rparts.last());
        assert(parts.drop_last() =~= seq![m] + rparts.drop_last());
        lemma_mods_of_prepend(m, rparts.drop_last());
        assert(mods_of(parts.drop_last()) == seq![mods[0]] + mods.drop_first());
        assert(seq![mods[0]] + mods.drop_first() =~= mods);
    }
}

} // verus!
