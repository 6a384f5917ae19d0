use mewtui::app::{App, Effect, Focus, Status};
use mewtui::editor::highlight::SyntaxHighlighter;
use mewtui::filetree::{DirEntryInfo, DirListing};
use mewtui::keys::{KeyCode, KeyEvent, Modifiers};
use mewtui::theme::THEME_COUNT;

fn plain() -> Modifiers {
    Modifiers { shift: false, control: false, alt: false, super_key: false, hyper: false, meta: false }
}

fn press(code: KeyCode) -> KeyEvent {
    KeyEvent { code, modifiers: plain() }
}

fn ctrl(c: char) -> KeyEvent {
    KeyEvent { code: KeyCode::Char(c), modifiers: Modifiers { control: true, ..plain() } }
}

fn snap() -> Vec<DirListing> {
    let e = |name: &str, is_dir: bool| DirEntryInfo { name: name.to_string(), path: format!("/w/{name}"), is_dir };
    vec![
        DirListing { path: "/w".to_string(), entries: vec![e("main.rs", false), e("docs", true)] },
        DirListing {
            path: "/w/docs".to_string(),
            entries: vec![DirEntryInfo { name: "a.md".to_string(), path: "/w/docs/a.md".to_string(), is_dir: false }],
        },
    ]
}

fn app() -> App {
    App::new("/w".to_string(), &snap(), SyntaxHighlighter::new().ok().expect("grammars load"))
}

fn key(a: &mut App, k: KeyEvent) -> Effect {
    assert!(a.key_admissible(&k));
    a.handle_key(k)
}

#[test]
fn starts_on_the_shell_with_default_theme() {
    let a = app();
    assert_eq!(a.focus, Focus::Shell);
    assert!(!a.should_quit);
    assert_eq!(a.current_theme().name, "dracula");
    assert_eq!(a.file_tree.entries.len(), 2);
    assert!(a.status_msg.is_none());
    assert!(a.highlight_dirty);
}

#[test]
fn ctrl_q_quits_from_any_pane() {
    for _ in 0..3 {
        let mut a = app();
        assert_eq!(key(&mut a, ctrl('q')), Effect::Nothing);
        assert!(a.should_quit);
    }
    let mut a = app();
    a.cycle_focus();
    a.cycle_focus();
    key(&mut a, ctrl('q'));
    assert!(a.should_quit);
}

#[test]
fn shift_tab_cycles_focus_round() {
    let mut a = app();
    let back_tab = press(KeyCode::BackTab);
    key(&mut a, back_tab);
    assert_eq!(a.focus, Focus::Editor);
    key(&mut a, back_tab);
    assert_eq!(a.focus, Focus::FileTree);
    key(&mut a, KeyEvent { code: KeyCode::Tab, modifiers: Modifiers { control: true, ..plain() } });
    assert_eq!(a.focus, Focus::Shell);
}

#[test]
fn ctrl_t_cycles_twenty_themes() {
    let mut a = app();
    a.highlight_dirty = false;
    key(&mut a, ctrl('t'));
    assert_eq!(a.theme_index, 1);
    assert_eq!(a.current_theme().name, "catppuccin");
    assert!(a.highlight_dirty);
    for _ in 1..THEME_COUNT {
        a.cycle_theme();
    }
    assert_eq!(a.theme_index, 0);
}

#[test]
fn shell_keys_are_forwarded() {
    let mut a = app();
    assert_eq!(key(&mut a, press(KeyCode::Char('l'))), Effect::SendToShell(b"l".to_vec()));
    assert_eq!(key(&mut a, ctrl('c')), Effect::SendToShell(vec![3]));
    assert_eq!(key(&mut a, press(KeyCode::Up)), Effect::SendToShell(b"\x1b[A".to_vec()));
    assert_eq!(key(&mut a, press(KeyCode::Other)), Effect::Nothing);
    assert!(!a.should_quit);
}

#[test]
fn ctrl_s_asks_to_save_and_reports() {
    let mut a = app();
    assert_eq!(key(&mut a, ctrl('s')), Effect::SaveFile);
    a.finish_save(Ok(()));
    assert_eq!(a.status_msg, Some(Status::Saved(None)));
    a.finish_open("/w/main.rs".to_string(), Ok("fn main() {}".to_string()));
    a.buffer.insert_char('x');
    a.finish_save(Err("denied".to_string()));
    assert_eq!(a.status_msg, Some(Status::SaveError("denied".to_string())));
    assert!(a.buffer.modified);
    a.finish_save(Ok(()));
    assert_eq!(a.status_msg, Some(Status::Saved(Some("/w/main.rs".to_string()))));
    assert!(!a.buffer.modified);
}

#[test]
fn editor_typing_edits_buffer_and_clears_status() {
    let mut a = app();
    a.cycle_focus();
    a.init_shell(Err("no pty".to_string()));
    assert_eq!(a.status_msg, Some(Status::ShellError("no pty".to_string())));
    a.highlight_dirty = false;
    for c in ['h', 'i'] {
        key(&mut a, press(KeyCode::Char(c)));
    }
    key(&mut a, press(KeyCode::Enter));
    key(&mut a, press(KeyCode::Char('!')));
    key(&mut a, press(KeyCode::Left));
    key(&mut a, press(KeyCode::Backspace));
    assert_eq!(a.buffer.text(), "hi!");
    assert!(a.status_msg.is_none());
    assert!(a.highlight_dirty);
    key(&mut a, press(KeyCode::Home));
    key(&mut a, press(KeyCode::Delete));
    assert_eq!(a.buffer.text(), "i!");
}

#[test]
fn mark_copy_cut_and_paste() {
    let mut a = app();
    a.cycle_focus();
    a.finish_open("/w/main.rs".to_string(), Ok("hello world".to_string()));
    assert_eq!(a.focus, Focus::Editor);
    assert_eq!(a.status_msg, Some(Status::Opened("/w/main.rs".to_string())));
    key(&mut a, ctrl('a'));
    assert_eq!(a.status_msg, Some(Status::MarkSet));
    for _ in 0..5 {
        key(&mut a, press(KeyCode::Right));
    }
    let copied = key(&mut a, ctrl('c'));
    assert_eq!(copied, Effect::CopyToClipboard("hello".to_string()));
    a.finish_copy(&"hello".to_string(), Ok(()));
    assert_eq!(a.status_msg, Some(Status::Copied(5)));
    let cut = key(&mut a, ctrl('x'));
    assert_eq!(cut, Effect::CutToClipboard("hello".to_string()));
    assert_eq!(a.buffer.text(), " world");
    a.finish_cut(&"hello".to_string(), Err("no clipboard".to_string()));
    assert_eq!(a.status_msg, Some(Status::ClipboardError("no clipboard".to_string())));
    assert_eq!(key(&mut a, ctrl('v')), Effect::ReadClipboard);
    a.finish_paste(Ok("héllo".to_string()));
    assert_eq!(a.buffer.text(), "héllo world");
    assert_eq!(a.status_msg, Some(Status::Pasted(6)));
}

#[test]
fn paste_replaces_selection() {
    let mut a = app();
    a.cycle_focus();
    a.finish_open("/w/x.txt".to_string(), Ok("abcdef".to_string()));
    key(&mut a, press(KeyCode::Right));
    key(&mut a, ctrl('a'));
    key(&mut a, press(KeyCode::Right));
    key(&mut a, press(KeyCode::Right));
    a.finish_paste(Ok("XY".to_string()));
    assert_eq!(a.buffer.text(), "aXYdef");
    a.finish_paste(Err("busy".to_string()));
    assert_eq!(a.buffer.text(), "aXYdef");
}

#[test]
fn escape_clears_selection_only_when_marked() {
    let mut a = app();
    a.cycle_focus();
    key(&mut a, press(KeyCode::Esc));
    assert!(a.status_msg.is_none());
    key(&mut a, ctrl('a'));
    key(&mut a, ctrl('a'));
    assert_eq!(a.status_msg, Some(Status::MarkCleared));
    key(&mut a, ctrl('a'));
    key(&mut a, press(KeyCode::Esc));
    assert_eq!(a.status_msg, Some(Status::SelectionCleared));
    assert!(a.buffer.anchor.is_none());
}

#[test]
fn file_tree_navigation_and_enter() {
    let mut a = app();
    a.cycle_focus();
    a.cycle_focus();
    assert_eq!(a.focus, Focus::FileTree);
    assert_eq!(key(&mut a, press(KeyCode::Enter)), Effect::ToggleDirectory);
    a.finish_toggle(&snap());
    assert_eq!(a.file_tree.entries.len(), 3);
    key(&mut a, press(KeyCode::Down));
    key(&mut a, press(KeyCode::Down));
    assert_eq!(key(&mut a, press(KeyCode::Enter)), Effect::OpenFile("/w/main.rs".to_string()));
    a.finish_open("/w/main.rs".to_string(), Err("gone".to_string()));
    assert_eq!(a.status_msg, Some(Status::OpenError("gone".to_string())));
    assert_eq!(a.focus, Focus::FileTree);
    key(&mut a, press(KeyCode::Up));
    assert_eq!(a.file_tree.selected, 1);
    assert!(a.status_msg.is_none());
}

#[test]
fn ctrl_c_in_file_tree_quits() {
    let mut a = app();
    a.cycle_focus();
    a.cycle_focus();
    key(&mut a, ctrl('c'));
    assert!(a.should_quit);
}

#[test]
fn shell_directory_moves_the_tree() {
    let mut a = app();
    let docs = vec![DirListing {
        path: "/w/docs".to_string(),
        entries: vec![DirEntryInfo { name: "a.md".to_string(), path: "/w/docs/a.md".to_string(), is_dir: false }],
    }];
    assert!(!a.root_moves_to(&"/w".to_string()));
    a.sync_shell_cwd("/w/docs".to_string(), false, &docs);
    assert_eq!(a.file_tree.root, "/w");
    a.sync_shell_cwd("/w/docs".to_string(), true, &docs);
    assert_eq!(a.file_tree.root, "/w/docs");
    assert_eq!(a.file_tree.entries[0].name, "a.md");
}

#[test]
fn highlights_follow_the_file_extension() {
    let mut a = app();
    a.update_highlights();
    assert!(a.highlight_spans.is_empty());
    assert!(!a.highlight_dirty);
    a.finish_open("/w/main.rs".to_string(), Ok("fn main() {}".to_string()));
    a.update_highlights();
    let keyword = a.current_theme().syntax_keyword;
    assert!(a.highlight_spans.iter().any(|s| s.start == 0 && s.end == 2 && s.color == keyword));
    a.finish_open("/w/Makefile".to_string(), Ok("fn main() {}".to_string()));
    a.update_highlights();
    assert!(a.highlight_spans.is_empty());
    a.finish_open("/w/notes.md".to_string(), Ok("fn main() {}".to_string()));
    a.update_highlights();
    assert!(a.highlight_spans.is_empty());
}

#[test]
fn clean_highlights_are_kept() {
    let mut a = app();
    a.finish_open("/w/main.rs".to_string(), Ok("fn main() {}".to_string()));
    a.update_highlights();
    let before = a.highlight_spans.clone();
    a.buffer.insert_char('x');
    a.update_highlights();
    assert_eq!(a.highlight_spans, before);
}

#[test]
fn admissible_refuses_keys_off_the_text() {
    let mut a = app();
    a.cycle_focus();
    a.buffer.cursor_row = 5;
    a.buffer.cursor_col = 1;
    assert!(!a.key_admissible(&press(KeyCode::Backspace)));
    assert!(!a.key_admissible(&press(KeyCode::Delete)));
    assert!(a.key_admissible(&press(KeyCode::Char('x'))));
    a.cycle_focus();
    assert!(a.key_admissible(&press(KeyCode::Backspace)));
}

#[test]
fn only_editing_keys_change_the_text() {
    let mut a = app();
    a.cycle_focus();
    a.finish_open("/w/x.txt".to_string(), Ok("ab\ncd".to_string()));
    a.highlight_dirty = false;
    for k in [press(KeyCode::Down), press(KeyCode::End), press(KeyCode::Home), press(KeyCode::PageUp), ctrl('a'), press(KeyCode::Esc)] {
        key(&mut a, k);
    }
    assert_eq!(a.buffer.text(), "ab\ncd");
    assert!(!a.buffer.modified);
    assert!(!a.highlight_dirty);
    key(&mut a, ctrl('b'));
    assert_eq!(a.buffer.text(), "ab\nbcd");
    assert!(a.buffer.modified);
    assert!(a.highlight_dirty);
}

#[test]
fn ctrl_c_in_editor_quits_only_with_nothing_marked() {
    let mut a = app();
    a.cycle_focus();
    a.finish_open("/w/x.txt".to_string(), Ok("abc".to_string()));
    key(&mut a, ctrl('a'));
    assert_eq!(key(&mut a, ctrl('c')), Effect::Nothing);
    assert!(!a.should_quit);
    key(&mut a, press(KeyCode::Right));
    assert_eq!(key(&mut a, ctrl('c')), Effect::CopyToClipboard("a".to_string()));
    assert!(!a.should_quit);
    key(&mut a, press(KeyCode::Esc));
    assert_eq!(key(&mut a, ctrl('c')), Effect::Nothing);
    assert!(a.should_quit);
    assert_eq!(a.buffer.text(), "abc");
}

#[test]
fn status_texts() {
    assert_eq!(Status::Opened("/w/src/main.rs".to_string()).text(), "Opened main.rs");
    assert_eq!(Status::Copied(1234).text(), "Copied 1234 chars");
    assert_eq!(Status::Cut(0).text(), "Cut 0 chars");
    assert_eq!(Status::Pasted(7).text(), "Pasted 7 chars");
    assert_eq!(Status::Saved(None).text(), "Saved untitled");
    assert_eq!(Status::Saved(Some("/a/b.txt".to_string())).text(), "Saved b.txt");
    assert_eq!(Status::SaveError("denied".to_string()).text(), "Save error: denied");
    assert_eq!(Status::OpenError("gone".to_string()).text(), "Error: gone");
    assert_eq!(Status::ShellError("x".to_string()).text(), "Shell error: x");
    assert_eq!(Status::ClipboardError("y".to_string()).text(), "Clipboard error: y");
    assert_eq!(Status::MarkSet.text(), "Mark set — move cursor to select");
    assert_eq!(Status::MarkCleared.text(), "Mark cleared");
    assert_eq!(Status::SelectionCleared.text(), "Selection cleared");
}

#[test]
fn status_line_pads_between_file_info_and_focus() {
    let mut a = app();
    assert_eq!(a.status_line(40), format!(" No file open{} [Shell] dracula ", " ".repeat(40 - 13 - 17)));
    assert_eq!(a.status_line(5), " No file open [Shell] dracula ");
    a.cycle_focus();
    a.finish_open("/w/src/café.rs".to_string(), Ok("ab\ncd".to_string()));
    a.status_msg = None;
    key(&mut a, press(KeyCode::Down));
    key(&mut a, ctrl('a'));
    a.status_msg = None;
    a.buffer.insert_char('x');
    let left = " café.rs [+]  2:2";
    let right = " SEL  [Editor] dracula ";
    assert_eq!(a.status_line(60), format!("{left}{}{right}", " ".repeat(60 - left.len() - right.len())));
    a.status_msg = Some(Status::Cut(3));
    assert_eq!(a.status_line(60), " Cut 3 chars");
}

#[test]
fn pane_titles() {
    let mut a = app();
    assert_eq!(a.editor_title(), "Editor");
    assert_eq!(a.tree_title(), "w");
    a.finish_open("/w/lib.rs".to_string(), Ok(String::new()));
    assert_eq!(a.editor_title(), "lib.rs");
    a.buffer.insert_char('x');
    assert_eq!(a.editor_title(), "lib.rs [+]");
    let root = App::new("/".to_string(), &vec![], SyntaxHighlighter::new().ok().expect("grammars load"));
    assert_eq!(root.tree_title(), "/");
}

#[test]
fn keys_leave_highlights_alone() {
    let mut a = app();
    a.finish_open("/w/main.rs".to_string(), Ok("fn main() {}".to_string()));
    a.update_highlights();
    let spans = a.highlight_spans.clone();
    assert!(!spans.is_empty());
    a.cycle_focus();
    key(&mut a, press(KeyCode::Right));
    key(&mut a, ctrl('t'));
    assert_eq!(a.highlight_spans, spans);
}

#[test]
fn extension_follows_the_last_dot_of_the_file_name() {
    let mut a = app();
    for (path, highlighted) in [("/w/.rs", false), ("/w/x.tar.rs", true), ("/w/..rs", true), ("/w/x.rs/", true), ("/w/rs", false)] {
        a.finish_open(path.to_string(), Ok("fn main() {}".to_string()));
        a.update_highlights();
        assert_eq!(!a.highlight_spans.is_empty(), highlighted, "{path}");
    }
}
