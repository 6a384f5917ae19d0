//! Key events, and the bytes a key sends to the shell.
use vstd::prelude::*;
use vstd::utf8::{encode_utf8, encode_scalar};

verus! {

/// A key, as the terminal reports it.
#[derive(Clone, Copy, PartialEq, Eq, Structural, Debug)]
pub enum KeyCode {
    Char(char),
    Enter,
    Backspace,
    Tab,
    BackTab,
    Esc,
    Up,
    Down,
    Left,
    Right,
    Home,
    End,
    Delete,
    PageUp,
    PageDown,
    /// Any other key.
    Other,
}

/// The modifier keys held down with a key.
#[derive(Clone, Copy, PartialEq, Eq, Structural, Debug)]
pub struct Modifiers {
    pub shift: bool,
    pub control: bool,
    pub alt: bool,
    pub super_key: bool,
    pub hyper: bool,
    pub meta: bool,
}

impl Modifiers {
    /// Control and nothing else.
    pub open spec fn is_control_only(self) -> bool {
        self.control && !self.shift && !self.alt && !self.super_key && !self.hyper && !self.meta
    }

    pub fn control_only(&self) -> (b: bool)
        ensures
            b == self.is_control_only(),
    {
        self.control && !self.shift && !self.alt && !self.super_key && !self.hyper && !self.meta
    }
}

#[derive(Clone, Copy, PartialEq, Eq, Structural, Debug)]
pub struct KeyEvent {
    pub code: KeyCode,
    pub modifiers: Modifiers,
}

/// The control byte that Ctrl with `c` sends: `c`'s low byte, less `a`,
/// plus one, with wrap-around (so Ctrl+a is 1 and Ctrl+z is 26).
pub open spec fn control_byte(c: char) -> u8 {
    ((((c as u32) as u8) as int + 256 - 97 + 1) % 256) as u8
}

/// The bytes a key sends to the shell: chars as UTF-8 (with Ctrl, their
/// control byte), Enter as CR, Backspace as DEL, Tab, Esc, and the VT
/// escape sequences of the cursor and editing keys; nothing for others.
pub open spec fn shell_bytes(key: KeyEvent) -> Option<Seq<u8>> {
    match key.code {
        KeyCode::Char(c) => if key.modifiers.control {
            Some(seq![control_byte(c)])
        } else {
            Some(encode_utf8(seq![c]))
        },
        KeyCode::Enter => Some(seq![0x0Du8]),
        KeyCode::Backspace => Some(seq![0x7Fu8]),
        KeyCode::Tab => Some(seq![0x09u8]),
        KeyCode::Esc => Some(seq![0x1Bu8]),
        KeyCode::Up => Some(seq![0x1Bu8, 0x5Bu8, 0x41u8]),
        KeyCode::Down => Some(seq![0x1Bu8, 0x5Bu8, 0x42u8]),
        KeyCode::Right => Some(seq![0x1Bu8, 0x5Bu8, 0x43u8]),
        KeyCode::Left => Some(seq![0x1Bu8, 0x5Bu8, 0x44u8]),
        KeyCode::Home => Some(seq![0x1Bu8, 0x5Bu8, 0x48u8]),
        KeyCode::End => Some(seq![0x1Bu8, 0x5Bu8, 0x46u8]),
        KeyCode::Delete => Some(seq![0x1Bu8, 0x5Bu8, 0x33u8, 0x7Eu8]),
        KeyCode::PageUp => Some(seq![0x1Bu8, 0x5Bu8, 0x35u8, 0x7Eu8]),
        KeyCode::PageDown => Some(seq![0x1Bu8, 0x5Bu8, 0x36u8, 0x7Eu8]),
        _ => None,
    }
}

/// Ctrl with a lowercase letter sends its place in the alphabet: Ctrl+a is
/// 1, ..., Ctrl+z is 26; and a key with no modifier held sends the UTF-8 of
/// its char.
pub proof fn law_control_letters(c: char)
    ensures
        'a' <= c <= 'z' ==> control_byte(c) == (c as u32) - 96,
        forall|m: Modifiers| !m.control ==> shell_bytes(KeyEvent { code: KeyCode::Char(c), modifiers: m })
            == Some(encode_utf8(seq![c])),
{
    if 'a' <= c <= 'z' {
        let u = c as u32;
        assert((u as u8) as int == u) by (bit_vector)
            requires
                97 <= u <= 122,
        ;
    }
}

/// The UTF-8 encoding of `c`.
pub fn encode_char(c: char) -> (bytes: Vec<u8>)
    ensures
        bytes@ == encode_utf8(seq![c]),
{
    let v = c as u32;
    proof {
        vstd::utf8::char_is_scalar(c);
        assert(encode_utf8(seq![c]) =~= encode_scalar(v) + encode_utf8(seq![c].drop_first()));
        assert(seq![c].drop_first() =~= Seq::<char>::empty());
        assert(encode_utf8(Seq::<char>::empty()) =~= Seq::<u8>::empty());
        assert(encode_scalar(v) + Seq::<u8>::empty() =~= encode_scalar(v));
    }
    let mut out: Vec<u8> = Vec::new();
    if v <= 0x7F {
        out.push((v & 0x7F) as u8);
    } else if v <= 0x7FF {
        out.push(0xC0 | ((v >> 6) & 0x1F) as u8);
        out.push(0x80 | (v & 0x3F) as u8);
    } else if v <= 0xFFFF {
        out.push(0xE0 | ((v >> 12) & 0x0F) as u8);
        out.push(0x80 | ((v >> 6) & 0x3F) as u8);
        out.push(0x80 | (v & 0x3F) as u8);
    } else {
        out.push(0xF0 | ((v >> 18) & 0x7) as u8);
        out.push(0x80 | ((v >> 12) & 0x3F) as u8);
        out.push(0x80 | ((v >> 6) & 0x3F) as u8);
        out.push(0x80 | (v & 0x3F) as u8);
    }
    assert(out@ =~= encode_scalar(v));
    out
}

/// Forward a key event to the shell PTY as raw bytes: the bytes it sends.
pub fn key_to_shell_bytes(key: &KeyEvent) -> (bytes: Option<Vec<u8>>)
    ensures
        match bytes {
            None => shell_bytes(*key) is None,
            Some(b) => shell_bytes(*key) == Some(b@),
        },
{
    let bytes: Vec<u8> = match key.code {
        KeyCode::Char(c) => {
            if key.modifiers.control {
                let low = (c as u32) as u8;
                let ctrl = low.wrapping_sub(97).wrapping_add(1);
                let v = vec![ctrl];
                assert(v@ =~= seq![control_byte(c)]);
                v
            } else {
                encode_char(c)
            }
        },
        KeyCode::Enter => vec![0x0D],
        KeyCode::Backspace => vec![0x7F],
        KeyCode::Tab => vec![0x09],
        KeyCode::Esc => vec![0x1B],
        KeyCode::Up => vec![0x1B, 0x5B, 0x41],
        KeyCode::Down => vec![0x1B, 0x5B, 0x42],
        KeyCode::Right => vec![0x1B, 0x5B, 0x43],
        KeyCode::Left => vec![0x1B, 0x5B, 0x44],
        KeyCode::Home => vec![0x1B, 0x5B, 0x48],
        KeyCode::End => vec![0x1B, 0x5B, 0x46],
        KeyCode::Delete => vec![0x1B, 0x5B, 0x33, 0x7E],
        KeyCode::PageUp => vec![0x1B, 0x5B, 0x35, 0x7E],
        KeyCode::PageDown => vec![0x1B, 0x5B, 0x36, 0x7E],
        _ => {
            return None;
        },
    };
    assert(shell_bytes(*key) == Some(bytes@));
    Some(bytes)
}

} // verus!
