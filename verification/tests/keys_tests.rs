use mewtui::keys::{encode_char, key_to_shell_bytes, KeyCode, KeyEvent, Modifiers};

fn plain() -> Modifiers {
    Modifiers { shift: false, control: false, alt: false, super_key: false, hyper: false, meta: false }
}

fn ctrl() -> Modifiers {
    Modifiers { control: true, ..plain() }
}

fn key(code: KeyCode, modifiers: Modifiers) -> KeyEvent {
    KeyEvent { code, modifiers }
}

#[test]
fn control_letters_send_control_bytes() {
    assert_eq!(key_to_shell_bytes(&key(KeyCode::Char('a'), ctrl())), Some(vec![1]));
    assert_eq!(key_to_shell_bytes(&key(KeyCode::Char('c'), ctrl())), Some(vec![3]));
    assert_eq!(key_to_shell_bytes(&key(KeyCode::Char('d'), ctrl())), Some(vec![4]));
    assert_eq!(key_to_shell_bytes(&key(KeyCode::Char('z'), ctrl())), Some(vec![26]));
}

#[test]
fn control_with_other_chars_wraps_around() {
    // `A` is below `a`: the byte wraps as the original's wrapping arithmetic does.
    assert_eq!(key_to_shell_bytes(&key(KeyCode::Char('A'), ctrl())), Some(vec![0xE1]));
    let shifted = Modifiers { shift: true, ..ctrl() };
    assert_eq!(key_to_shell_bytes(&key(KeyCode::Char('a'), shifted)), Some(vec![1]));
}

#[test]
fn plain_chars_send_utf8() {
    assert_eq!(key_to_shell_bytes(&key(KeyCode::Char('x'), plain())), Some(b"x".to_vec()));
    assert_eq!(key_to_shell_bytes(&key(KeyCode::Char('é'), plain())), Some("é".as_bytes().to_vec()));
    assert_eq!(key_to_shell_bytes(&key(KeyCode::Char('€'), plain())), Some("€".as_bytes().to_vec()));
    assert_eq!(key_to_shell_bytes(&key(KeyCode::Char('😀'), plain())), Some("😀".as_bytes().to_vec()));
}

#[test]
fn encode_char_matches_std() {
    for c in ['\0', 'a', '\u{7F}', '\u{80}', 'ß', '\u{7FF}', '\u{800}', '中', '\u{FFFF}', '\u{10000}', '\u{10FFFF}'] {
        let mut buf = [0u8; 4];
        assert_eq!(encode_char(c), c.encode_utf8(&mut buf).as_bytes().to_vec());
    }
}

#[test]
fn special_keys_send_escape_sequences() {
    let cases: Vec<(KeyCode, &[u8])> = vec![
        (KeyCode::Enter, b"\r"),
        (KeyCode::Backspace, b"\x7f"),
        (KeyCode::Tab, b"\t"),
        (KeyCode::Esc, b"\x1b"),
        (KeyCode::Up, b"\x1b[A"),
        (KeyCode::Down, b"\x1b[B"),
        (KeyCode::Right, b"\x1b[C"),
        (KeyCode::Left, b"\x1b[D"),
        (KeyCode::Home, b"\x1b[H"),
        (KeyCode::End, b"\x1b[F"),
        (KeyCode::Delete, b"\x1b[3~"),
        (KeyCode::PageUp, b"\x1b[5~"),
        (KeyCode::PageDown, b"\x1b[6~"),
    ];
    for (code, bytes) in cases {
        assert_eq!(key_to_shell_bytes(&key(code, plain())), Some(bytes.to_vec()));
    }
}

#[test]
fn other_keys_send_nothing() {
    assert_eq!(key_to_shell_bytes(&key(KeyCode::BackTab, plain())), None);
    assert_eq!(key_to_shell_bytes(&key(KeyCode::Other, ctrl())), None);
}

#[test]
fn control_only_means_nothing_else_held() {
    assert!(ctrl().control_only());
    assert!(!plain().control_only());
    assert!(!Modifiers { alt: true, ..ctrl() }.control_only());
}
