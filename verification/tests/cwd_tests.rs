use mewtui::shell::cwd::{cwd_from_osc, lsof_cwd, percent_decode, shell_kind, CwdTracker, ShellKind};

#[test]
fn percent_decode_turns_escapes_into_chars() {
    assert_eq!(percent_decode("/home/me/My%20Dir"), "/home/me/My Dir");
    assert_eq!(percent_decode("%41%62%7e"), "Ab~");
    assert_eq!(percent_decode("/plain/path"), "/plain/path");
    assert_eq!(percent_decode(""), "");
}

#[test]
fn percent_decode_drops_bad_escapes() {
    assert_eq!(percent_decode("a%zzb"), "ab");
    assert_eq!(percent_decode("a%4"), "a");
    assert_eq!(percent_decode("a%"), "a");
}

#[test]
fn percent_decode_reads_the_bytes_as_utf8() {
    assert_eq!(percent_decode("%C3%A9"), "é");
    assert_eq!(percent_decode("/tmp/café"), "/tmp/café");
    assert_eq!(percent_decode("/tmp/caf%C3%A9/日本"), "/tmp/café/日本");
    assert_eq!(percent_decode("a%FFb"), "a\u{FFFD}b");
}

#[test]
fn cwd_from_osc_forms() {
    let two = vec![b"7".to_vec(), b"file://box.local/Users/me/a%20b".to_vec()];
    assert_eq!(cwd_from_osc(&two).as_deref(), Some("/Users/me/a b"));
    let one = vec![b"7;file://host/srv".to_vec()];
    assert_eq!(cwd_from_osc(&one).as_deref(), Some("/srv"));
    assert_eq!(cwd_from_osc(&vec![]), None);
    assert_eq!(cwd_from_osc(&vec![b"7".to_vec()]), None);
    assert_eq!(cwd_from_osc(&vec![b"2".to_vec(), b"title".to_vec()]), None);
    assert_eq!(cwd_from_osc(&vec![b"7".to_vec(), b"no-scheme/path".to_vec()]), None);
    assert_eq!(cwd_from_osc(&vec![b"7".to_vec(), b"file://hostonly".to_vec()]), None);
}

#[test]
fn lsof_cwd_takes_first_n_line() {
    assert_eq!(lsof_cwd("p123\nfcwd\nn/home/me/project\n").as_deref(), Some("/home/me/project"));
    assert_eq!(lsof_cwd("p1\r\nn/tmp\r\n").as_deref(), Some("/tmp"));
    assert_eq!(lsof_cwd("n/a\nn/b\n").as_deref(), Some("/a"));
    assert_eq!(lsof_cwd("p1\nfcwd\n"), None);
    assert_eq!(lsof_cwd(""), None);
    assert_eq!(lsof_cwd("n").as_deref(), Some(""));
}

#[test]
fn shell_kind_by_name() {
    assert_eq!(shell_kind("/bin/zsh"), ShellKind::Zsh);
    assert_eq!(shell_kind("/usr/local/bin/bash"), ShellKind::Bash);
    assert_eq!(shell_kind("/usr/bin/fish"), ShellKind::Other);
    assert_eq!(shell_kind("zshbash"), ShellKind::Zsh);
}

#[test]
fn tracker_reports_queried_directory_once() {
    let mut t = CwdTracker::new();
    assert_eq!(t.note_queried("/a".to_string()).as_deref(), Some("/a"));
    assert_eq!(t.note_queried("/a".to_string()), None);
    assert_eq!(t.note_queried("/b".to_string()).as_deref(), Some("/b"));
    assert_eq!(t.note_reported("/b".to_string()), "/b");
    assert_eq!(t.note_queried("/b".to_string()), None);
    assert_eq!(t.last_known_cwd.as_deref(), Some("/b"));
}
