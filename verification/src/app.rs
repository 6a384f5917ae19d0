//! The editor's state and what each key does to it.
//!
//! A key is handled in one step: the state changes, and an `Effect` names
//! the outside work the key asks for (writing to the shell, the clipboard,
//! a file, reading a directory). Whoever performs that work hands the
//! outcome back through the matching `finish_` method.
use vstd::prelude::*;
use vstd::utf8::encode_utf8;
use crate::editor::buffer::{Buffer, BufferView, lemma_delete_selection_shrinks};
use crate::editor::highlight::{ColorSpan, SyntaxHighlighter, highlighted};
use crate::filetree::{FileTree, TreeView, DirListing, fresh_tree, snapshot_ok, snapshot_view};
use crate::keys::{KeyCode, KeyEvent, key_to_shell_bytes, shell_bytes};
use crate::theme::{Theme, THEME_COUNT, builtin_theme, theme_at};
use crate::ui::{decimal_chars, push_decimal, push_spaces, push_text, spaces};
use crate::shell::cwd::{chars_of, push_char};

verus! {

#[derive(Clone, Copy, PartialEq, Eq, Structural, Debug)]
pub enum Focus {
    Shell,
    Editor,
    FileTree,
}

/// The pane that focus moves to next: shell, editor, file tree, and round.
pub open spec fn next_focus(f: Focus) -> Focus {
    match f {
        Focus::Shell => Focus::Editor,
        Focus::Editor => Focus::FileTree,
        Focus::FileTree => Focus::Shell,
    }
}

/// The message shown in the status bar.
#[derive(PartialEq, Eq, Debug)]
pub enum Status {
    /// The shell could not be started.
    ShellError(String),
    /// The file at this path was opened.
    Opened(String),
    /// A file could not be opened.
    OpenError(String),
    /// This many bytes were copied to the clipboard.
    Copied(usize),
    /// This many bytes were cut to the clipboard.
    Cut(usize),
    /// This many bytes were pasted.
    Pasted(usize),
    ClipboardError(String),
    /// The buffer was saved (to this path; none for an untitled buffer).
    Saved(Option<String>),
    SaveError(String),
    MarkSet,
    MarkCleared,
    SelectionCleared,
}

/// The outside work that a key asks for.
#[derive(PartialEq, Eq, Debug)]
pub enum Effect {
    Nothing,
    /// Write these bytes to the shell.
    SendToShell(Vec<u8>),
    /// Put this text on the clipboard, then `finish_copy`.
    CopyToClipboard(String),
    /// Put this text, just cut from the buffer, on the clipboard, then `finish_cut`.
    CutToClipboard(String),
    /// Read the clipboard, then `finish_paste`.
    ReadClipboard,
    /// Write the buffer's text to its file (if it has one), then `finish_save`.
    SaveFile,
    /// Read the file at this path, then `finish_open`.
    OpenFile(String),
    /// Read the directories of the file tree, then `finish_toggle`.
    ToggleDirectory,
}

pub enum EffectView {
    Nothing,
    SendToShell(Seq<u8>),
    CopyToClipboard(Seq<char>),
    CutToClipboard(Seq<char>),
    ReadClipboard,
    SaveFile,
    OpenFile(Seq<char>),
    ToggleDirectory,
}

impl View for Effect {
    type V = EffectView;

    open spec fn view(&self) -> EffectView {
        match self {
            Effect::Nothing => EffectView::Nothing,
            Effect::SendToShell(b) => EffectView::SendToShell(b@),
            Effect::CopyToClipboard(t) => EffectView::CopyToClipboard(t@),
            Effect::CutToClipboard(t) => EffectView::CutToClipboard(t@),
            Effect::ReadClipboard => EffectView::ReadClipboard,
            Effect::SaveFile => EffectView::SaveFile,
            Effect::OpenFile(p) => EffectView::OpenFile(p@),
            Effect::ToggleDirectory => EffectView::ToggleDirectory,
        }
    }
}

pub struct App {
    pub focus: Focus,
    pub should_quit: bool,
    pub theme_index: usize,
    pub file_tree: FileTree,
    pub buffer: Buffer,
    pub status_msg: Option<Status>,
    pub highlighter: SyntaxHighlighter,
    /// The colored spans of the buffer's text.
    pub highlight_spans: Vec<ColorSpan>,
    /// The syntax highlights are to be computed again.
    pub highlight_dirty: bool,
}

/// The state of the editor, as mathematical values, the status message
/// aside: the functions that set it say what it becomes, and a key's
/// `StatusChange` says what the key does to it.
pub struct AppView {
    pub focus: Focus,
    pub should_quit: bool,
    pub theme_index: int,
    pub file_tree: TreeView,
    pub buffer: BufferView,
    pub highlighter: SyntaxHighlighter,
    pub highlight_spans: Seq<ColorSpan>,
    pub highlight_dirty: bool,
}

impl View for App {
    type V = AppView;

    open spec fn view(&self) -> AppView {
        AppView {
            focus: self.focus,
            should_quit: self.should_quit,
            theme_index: self.theme_index as int,
            file_tree: self.file_tree@,
            buffer: self.buffer@,
            highlighter: self.highlighter,
            highlight_spans: self.highlight_spans@,
            highlight_dirty: self.highlight_dirty,
        }
    }
}

/// Which fixed status message a key leaves, if it sets one.
pub enum StatusChange {
    Keep,
    Clear,
    MarkSet,
    MarkCleared,
    SelectionCleared,
}

pub open spec fn ctrl_char(key: KeyEvent, c: char) -> bool {
    key.modifiers.is_control_only() && key.code == KeyCode::Char(c)
}

/// The keys that act whatever pane has the focus: Ctrl+Q, Ctrl+T, Ctrl+S,
/// Shift+Tab and Ctrl+Tab.
pub open spec fn is_global_key(key: KeyEvent) -> bool {
    ctrl_char(key, 'q') || ctrl_char(key, 't') || ctrl_char(key, 's') || key.code == KeyCode::BackTab || (
    key.code == KeyCode::Tab && key.modifiers.control)
}

impl AppView {
    /// Inputs on which handling `key` stays within the buffer's text (the
    /// editing keys whose buffer operation asks for more).
    pub open spec fn key_ok(self, key: KeyEvent) -> bool {
        let b = self.buffer;
        (!is_global_key(key) && self.focus == Focus::Editor) ==> {
            &&& (ctrl_char(key, 'c') || ctrl_char(key, 'x')) ==> b.selection_ok()
            &&& (!ctrl_char(key, 'a') && !ctrl_char(key, 'c') && !ctrl_char(key, 'x') && !ctrl_char(
                key,
                'v',
            ) && key.code != KeyCode::Esc) ==> {
                &&& key.code == KeyCode::Enter ==> b.text.len() < usize::MAX && b.cursor_row
                    < usize::MAX
                &&& key.code == KeyCode::Backspace ==> b.backspace_ok()
                &&& key.code == KeyCode::Delete ==> b.cursor_row <= crate::editor::lines::line_count(
                    b.text,
                )
                &&& key.code is Char ==> b.text.len() < usize::MAX
            }
        }
    }

    /// The state after `key`, the status change it makes and the effect it asks for.
    pub open spec fn after_key(self, key: KeyEvent) -> (AppView, StatusChange, EffectView) {
        let b = self.buffer;
        if ctrl_char(key, 'q') {
            (AppView { should_quit: true, ..self }, StatusChange::Keep, EffectView::Nothing)
        } else if ctrl_char(key, 't') {
            (self.after_cycle_theme(), StatusChange::Keep, EffectView::Nothing)
        } else if ctrl_char(key, 's') {
            (self, StatusChange::Keep, EffectView::SaveFile)
        } else if key.code == KeyCode::BackTab || (key.code == KeyCode::Tab && key.modifiers.control) {
            (AppView { focus: next_focus(self.focus), ..self }, StatusChange::Keep, EffectView::Nothing)
        } else if self.focus == Focus::Shell {
            (
                self,
                StatusChange::Keep,
                match shell_bytes(key) {
                    Some(bytes) => EffectView::SendToShell(bytes),
                    None => EffectView::Nothing,
                },
            )
        } else if self.focus == Focus::Editor && ctrl_char(key, 'a') {
            let nb = b.after_toggle_mark();
            (
                AppView { buffer: nb, ..self },
                if nb.anchor is Some {
                    StatusChange::MarkSet
                } else {
                    StatusChange::MarkCleared
                },
                EffectView::Nothing,
            )
        } else if self.focus == Focus::Editor && ctrl_char(key, 'c') {
            if b.anchor is None {
                // With nothing marked, Ctrl+C quits.
                (AppView { should_quit: true, ..self }, StatusChange::Keep, EffectView::Nothing)
            } else {
                (
                    self,
                    StatusChange::Keep,
                    match b.selected_text() {
                        Some(t) => EffectView::CopyToClipboard(t),
                        None => EffectView::Nothing,
                    },
                )
            }
        } else if self.focus == Focus::Editor && ctrl_char(key, 'x') {
            match (b.anchor, b.selected_text()) {
                (Some(_), Some(t)) => (
                    AppView { buffer: b.after_delete_selection(), highlight_dirty: true, ..self },
                    StatusChange::Keep,
                    EffectView::CutToClipboard(t),
                ),
                (Some(_), None) => (AppView { buffer: b.after_delete_selection(), ..self }, StatusChange::Keep, EffectView::Nothing),
                _ => (self, StatusChange::Keep, EffectView::Nothing),
            }
        } else if self.focus == Focus::Editor && ctrl_char(key, 'v') {
            (self, StatusChange::Keep, EffectView::ReadClipboard)
        } else if self.focus == Focus::Editor && key.code == KeyCode::Esc {
            if b.anchor is Some {
                (
                    AppView { buffer: b.after_clear_selection(), ..self },
                    StatusChange::SelectionCleared,
                    EffectView::Nothing,
                )
            } else {
                (self, StatusChange::Keep, EffectView::Nothing)
            }
        } else if self.focus == Focus::FileTree && ctrl_char(key, 'c') {
            (AppView { should_quit: true, ..self }, StatusChange::Keep, EffectView::Nothing)
        } else if self.focus == Focus::FileTree {
            let t = self.file_tree;
            if key.code == KeyCode::Up {
                (AppView { file_tree: t.moved_up(), ..self }, StatusChange::Clear, EffectView::Nothing)
            } else if key.code == KeyCode::Down {
                (AppView { file_tree: t.moved_down(), ..self }, StatusChange::Clear, EffectView::Nothing)
            } else if key.code == KeyCode::Enter && 0 <= t.selected < t.entries.len() {
                (
                    self,
                    StatusChange::Clear,
                    if t.entries[t.selected].is_dir {
                        EffectView::ToggleDirectory
                    } else {
                        EffectView::OpenFile(t.entries[t.selected].path)
                    },
                )
            } else {
                (self, StatusChange::Clear, EffectView::Nothing)
            }
        } else {
            // The editor's own keys.
            let (nb, edits) = if key.code == KeyCode::Up {
                (b.after_move_up(), false)
            } else if key.code == KeyCode::Down {
                (b.after_move_down(), false)
            } else if key.code == KeyCode::Left {
                (b.after_move_left(), false)
            } else if key.code == KeyCode::Right {
                (b.after_move_right(), false)
            } else if key.code == KeyCode::Home {
                (b.after_move_home(), false)
            } else if key.code == KeyCode::End {
                (b.after_move_end(), false)
            } else if key.code == KeyCode::Enter {
                (b.after_insert_newline(), true)
            } else if key.code == KeyCode::Backspace {
                (b.after_backspace(), true)
            } else if key.code == KeyCode::Delete {
                (b.after_delete(), true)
            } else if let KeyCode::Char(c) = key.code {
                (b.after_insert_char(c), true)
            } else {
                (b, false)
            };
            (
                AppView { buffer: nb, highlight_dirty: self.highlight_dirty || edits, ..self },
                StatusChange::Clear,
                EffectView::Nothing,
            )
        }
    }

    pub open spec fn after_cycle_theme(self) -> AppView {
        AppView {
            theme_index: (self.theme_index + 1) % (THEME_COUNT as int),
            highlight_dirty: true,
            ..self
        }
    }
}

/// Focus goes round: three moves bring it back.
pub proof fn law_focus_cycle(f: Focus)
    ensures
        next_focus(next_focus(next_focus(f))) == f,
        next_focus(f) != f,
{
}

/// Ctrl+Q quits from any pane and changes nothing else.
pub proof fn law_quit_from_anywhere(v: AppView, key: KeyEvent)
    requires
        ctrl_char(key, 'q'),
    ensures
        v.after_key(key) == (AppView { should_quit: true, ..v }, StatusChange::Keep, EffectView::Nothing),
{
}

/// A key quits exactly when it is Ctrl+Q, or Ctrl+C with the file tree
/// focused or with the editor focused and nothing marked; a quit is never
/// taken back.
pub proof fn law_which_keys_quit(v: AppView, key: KeyEvent)
    ensures
        v.after_key(key).0.should_quit == (v.should_quit || ctrl_char(key, 'q') || (ctrl_char(key, 'c') && (
        v.focus == Focus::FileTree || (v.focus == Focus::Editor && v.buffer.anchor is None)))),
{
}

/// With the editor focused, a key pressed without Ctrl acts on the buffer
/// as its name says: the arrow keys, Home and End move the cursor as those
/// moves do (Up never to a lower line, Down never to a higher one), Enter,
/// Backspace and Delete edit as those edits do and a char is typed; the
/// status message is cleared, an edit marks the highlights to be redone,
/// and nothing else changes.
pub proof fn law_editor_keys(v: AppView, key: KeyEvent)
    requires
        v.focus == Focus::Editor,
        !key.modifiers.control,
    ensures
        key.code == KeyCode::Up ==> v.after_key(key) == (AppView { buffer: v.buffer.after_move_up(), ..v }, StatusChange::Clear, EffectView::Nothing)
            && v.after_key(key).0.buffer.cursor_row <= v.buffer.cursor_row,
        key.code == KeyCode::Down ==> v.after_key(key) == (AppView { buffer: v.buffer.after_move_down(), ..v }, StatusChange::Clear, EffectView::Nothing)
            && v.after_key(key).0.buffer.cursor_row >= v.buffer.cursor_row,
        key.code == KeyCode::Left ==> v.after_key(key) == (AppView { buffer: v.buffer.after_move_left(), ..v }, StatusChange::Clear, EffectView::Nothing),
        key.code == KeyCode::Right ==> v.after_key(key) == (AppView { buffer: v.buffer.after_move_right(), ..v }, StatusChange::Clear, EffectView::Nothing),
        key.code == KeyCode::Home ==> v.after_key(key) == (AppView { buffer: v.buffer.after_move_home(), ..v }, StatusChange::Clear, EffectView::Nothing),
        key.code == KeyCode::End ==> v.after_key(key) == (AppView { buffer: v.buffer.after_move_end(), ..v }, StatusChange::Clear, EffectView::Nothing),
        key.code == KeyCode::Enter ==> v.after_key(key) == (AppView { buffer: v.buffer.after_insert_newline(), highlight_dirty: true, ..v }, StatusChange::Clear, EffectView::Nothing),
        key.code == KeyCode::Backspace ==> v.after_key(key) == (AppView { buffer: v.buffer.after_backspace(), highlight_dirty: true, ..v }, StatusChange::Clear, EffectView::Nothing),
        key.code == KeyCode::Delete ==> v.after_key(key) == (AppView { buffer: v.buffer.after_delete(), highlight_dirty: true, ..v }, StatusChange::Clear, EffectView::Nothing),
        key.code matches KeyCode::Char(c) ==> v.after_key(key) == (AppView { buffer: v.buffer.after_insert_char(c), highlight_dirty: true, ..v }, StatusChange::Clear, EffectView::Nothing),
{
}

/// With the shell focused, every key but the global ones goes to the shell
/// as the bytes it stands for, and nothing else changes.
pub proof fn law_shell_takes_keys(v: AppView, key: KeyEvent)
    requires
        v.focus == Focus::Shell,
        !is_global_key(key),
    ensures
        v.after_key(key).0 == v,
        v.after_key(key).1 is Keep,
        v.after_key(key).2 == match shell_bytes(key) {
            Some(bytes) => EffectView::SendToShell(bytes),
            None => EffectView::Nothing,
        },
{
}

/// A key changes the text only with the editor focused, and only by typing,
/// Enter, Backspace, Delete or Ctrl+X; a key that changes it marks the
/// buffer modified and its highlights to be redone.
pub proof fn law_text_changes_only_by_editing(v: AppView, key: KeyEvent)
    ensures
        v.after_key(key).0.buffer.text != v.buffer.text ==> {
            &&& v.focus == Focus::Editor
            &&& !is_global_key(key)
            &&& ctrl_char(key, 'x') || key.code is Char || key.code == KeyCode::Enter || key.code
                == KeyCode::Backspace || key.code == KeyCode::Delete
            &&& v.after_key(key).0.buffer.modified
            &&& v.after_key(key).0.highlight_dirty
        },
{
}

impl AppView {
    /// The state after `k` theme changes.
    pub open spec fn after_theme_changes(self, k: nat) -> AppView
        decreases k,
    {
        if k == 0 {
            self
        } else {
            self.after_theme_changes((k - 1) as nat).after_cycle_theme()
        }
    }
}

/// Theme changes go round the built-in themes: after `k` changes the theme
/// is `k` further on, so after as many changes as there are themes it is
/// the one it was; nothing but the theme (and the highlights, to be
/// redone) changes.
pub proof fn law_theme_cycle(v: AppView, k: nat)
    requires
        0 <= v.theme_index < THEME_COUNT,
    ensures
        v.after_theme_changes(k).theme_index == (v.theme_index + k) % (THEME_COUNT as int),
        v.after_theme_changes(THEME_COUNT as nat).theme_index == v.theme_index,
        k > 0 ==> v.after_theme_changes(k) == (AppView {
            theme_index: v.after_theme_changes(k).theme_index,
            highlight_dirty: true,
            ..v
        }),
    decreases k,
{
    if k > 0 {
        law_theme_cycle(v, (k - 1) as nat);
        assert((((v.theme_index + k - 1) % 20) + 1) % 20 == (v.theme_index + k) % 20) by (nonlinear_arith)
            requires
                0 <= v.theme_index < 20,
                k > 0,
        ;
    }
    lemma_theme_full_cycle(v, THEME_COUNT as nat);
}

proof fn lemma_theme_full_cycle(v: AppView, k: nat)
    requires
        0 <= v.theme_index < THEME_COUNT,
    ensures
        v.after_theme_changes(k).theme_index == (v.theme_index + k) % (THEME_COUNT as int),
    decreases k,
{
    if k > 0 {
        lemma_theme_full_cycle(v, (k - 1) as nat);
        assert((((v.theme_index + k - 1) % 20) + 1) % 20 == (v.theme_index + k) % 20) by (nonlinear_arith)
            requires
                0 <= v.theme_index < 20,
                k > 0,
        ;
    }
}

/// What `Path::file_name` gives for `path`, as text: its last component,
/// empty where there is none (a path ending in `..`, or a root).
pub uninterp spec fn path_file_name(path: Seq<char>) -> Seq<char>;

/// `Path::file_name` of the standard library, turned into a `String` (empty
/// where there is none). Only its name is stated here.
#[verifier::external_body]
fn file_name_of(path: &str) -> (n: String)
    ensures
        n@ == path_file_name(path@),
{
    std::path::Path::new(path).file_name().map(|n| n.to_string_lossy().to_string()).unwrap_or_default()
}

/// The position of the last `.` in `name`, if it has one.
pub open spec fn last_dot(name: Seq<char>) -> Option<int>
    decreases name.len(),
{
    if name.len() == 0 {
        None
    } else if name.last() == '.' {
        Some(name.len() - 1)
    } else {
        last_dot(name.drop_last())
    }
}

/// The extension of a file name, as `Path::extension` defines it: what
/// follows the name's last `.`, where that `.` does not begin the name;
/// empty otherwise.
pub open spec fn name_extension(name: Seq<char>) -> Seq<char> {
    match last_dot(name) {
        Some(i) => if i > 0 {
            name.skip(i + 1)
        } else {
            Seq::empty()
        },
        None => Seq::empty(),
    }
}

/// The extension of the file at `path`: that of its file name.
pub open spec fn path_extension(path: Seq<char>) -> Seq<char> {
    name_extension(path_file_name(path))
}

/// The extension of the file at `path` (empty where it has none).
fn extension_of(path: &str) -> (e: String)
    ensures
        e@ == path_extension(path@),
{
    let name = file_name_of(path);
    let cs = chars_of(name.as_str());
    let mut i = cs.len();
    assert(cs@.take(i as int) =~= cs@);
    // Look back for the last dot.
    while i > 0 && cs[i - 1] != '.'
        invariant
            i <= cs.len(),
            last_dot(cs@) == last_dot(cs@.take(i as int)),
        decreases i,
    {
        assert(cs@.take(i as int).drop_last() =~= cs@.take(i - 1));
        i = i - 1;
    }
    let mut e = String::new();
    if i > 1 {
        assert(cs@.take(i as int).last() == '.');
        let mut k = i;
        while k < cs.len()
            invariant
                i <= k <= cs.len(),
                e@ == cs@.subrange(i as int, k as int),
            decreases cs.len() - k,
        {
            push_char(&mut e, cs[k]);
            assert(e@ =~= cs@.subrange(i as int, k + 1));
            k = k + 1;
        }
        assert(cs@.skip(i as int) =~= cs@.subrange(i as int, cs.len() as int));
    } else if i == 1 {
        assert(cs@.take(1).last() == '.');
        assert(e@ =~= Seq::<char>::empty());
    } else {
        assert(cs@.take(0) =~= Seq::<char>::empty());
        assert(e@ =~= Seq::<char>::empty());
    }
    e
}

/// The text of a status message.
pub open spec fn status_text(s: Status) -> Seq<char> {
    match s {
        Status::ShellError(e) => "Shell error: "@ + e@,
        Status::Opened(p) => "Opened "@ + path_file_name(p@),
        Status::OpenError(e) => "Error: "@ + e@,
        Status::Copied(n) => "Copied "@ + decimal_chars(n as nat) + " chars"@,
        Status::Cut(n) => "Cut "@ + decimal_chars(n as nat) + " chars"@,
        Status::Pasted(n) => "Pasted "@ + decimal_chars(n as nat) + " chars"@,
        Status::ClipboardError(e) => "Clipboard error: "@ + e@,
        Status::Saved(Some(p)) => "Saved "@ + path_file_name(p@),
        Status::Saved(None) => "Saved untitled"@,
        Status::SaveError(e) => "Save error: "@ + e@,
        Status::MarkSet => "Mark set — move cursor to select"@,
        Status::MarkCleared => "Mark cleared"@,
        Status::SelectionCleared => "Selection cleared"@,
    }
}

impl Status {
    /// The message's text.
    pub fn text(&self) -> (t: String)
        ensures
            t@ == status_text(*self),
    {
        let mut t = String::new();
        match self {
            Status::ShellError(e) => {
                push_text(&mut t, "Shell error: ");
                push_text(&mut t, e.as_str());
            },
            Status::Opened(p) => {
                push_text(&mut t, "Opened ");
                let n = file_name_of(p.as_str());
                push_text(&mut t, n.as_str());
            },
            Status::OpenError(e) => {
                push_text(&mut t, "Error: ");
                push_text(&mut t, e.as_str());
            },
            Status::Copied(n) => {
                push_text(&mut t, "Copied ");
                push_decimal(&mut t, *n);
                push_text(&mut t, " chars");
            },
            Status::Cut(n) => {
                push_text(&mut t, "Cut ");
                push_decimal(&mut t, *n);
                push_text(&mut t, " chars");
            },
            Status::Pasted(n) => {
                push_text(&mut t, "Pasted ");
                push_decimal(&mut t, *n);
                push_text(&mut t, " chars");
            },
            Status::ClipboardError(e) => {
                push_text(&mut t, "Clipboard error: ");
                push_text(&mut t, e.as_str());
            },
            Status::Saved(Some(p)) => {
                push_text(&mut t, "Saved ");
                let n = file_name_of(p.as_str());
                push_text(&mut t, n.as_str());
            },
            Status::Saved(None) => {
                push_text(&mut t, "Saved untitled");
            },
            Status::SaveError(e) => {
                push_text(&mut t, "Save error: ");
                push_text(&mut t, e.as_str());
            },
            Status::MarkSet => {
                push_text(&mut t, "Mark set — move cursor to select");
            },
            Status::MarkCleared => {
                push_text(&mut t, "Mark cleared");
            },
            Status::SelectionCleared => {
                push_text(&mut t, "Selection cleared");
            },
        }
        t
    }
}

/// The name of the focused pane, as the status bar shows it.
pub open spec fn focus_label(f: Focus) -> Seq<char> {
    match f {
        Focus::Shell => "Shell"@,
        Focus::Editor => "Editor"@,
        Focus::FileTree => "Files"@,
    }
}

/// The left part of the status bar: the file's name, `[+]` when modified,
/// and the cursor's 1-based row and column; or that no file is open.
pub open spec fn status_file_info(b: BufferView) -> Seq<char> {
    match b.file_path {
        Some(p) => " "@ + path_file_name(p) + (if b.modified {
            " [+]"@
        } else {
            Seq::empty()
        }) + "  "@ + decimal_chars((b.cursor_row + 1) as nat) + ":"@ + decimal_chars(
            (b.cursor_col + 1) as nat,
        ),
        None => " No file open"@,
    }
}

/// The right part of the status bar: `SEL` while a mark is set, the
/// focused pane and the theme's name.
pub open spec fn status_right(v: AppView, theme_name: Seq<char>) -> Seq<char> {
    (if v.buffer.anchor is Some {
        " SEL "@
    } else {
        Seq::empty()
    }) + " ["@ + focus_label(v.focus) + "] "@ + theme_name + " "@
}

/// The status bar `width` cells wide: the status message, if there is
/// one, after a space; otherwise the file information and the right part,
/// with spaces between them to fill the width as counted in UTF-8 bytes.
pub open spec fn status_line_text(v: AppView, status: Option<Status>, theme_name: Seq<char>, width: int) -> Seq<
    char,
> {
    match status {
        Some(s) => " "@ + status_text(s),
        None => {
            let left = status_file_info(v.buffer);
            let right = status_right(v, theme_name);
            left + spaces(width - encode_utf8(left).len() - encode_utf8(right).len()) + right
        },
    }
}

/// The editor pane's title: the file's name and `[+]` when modified, or
/// `Editor` for a buffer without a file.
pub open spec fn editor_title_text(b: BufferView) -> Seq<char> {
    match b.file_path {
        Some(p) => path_file_name(p) + if b.modified {
            " [+]"@
        } else {
            Seq::empty()
        },
        None => "Editor"@,
    }
}

/// The file tree pane's title: the root directory's name, or `/` where it
/// has none.
pub open spec fn tree_title_text(root: Seq<char>) -> Seq<char> {
    if path_file_name(root).len() == 0 {
        "/"@
    } else {
        path_file_name(root)
    }
}

impl App {
    /// The text of the status bar, `width` cells wide.
    pub fn status_line(&self, width: usize) -> (s: String)
        requires
            self.theme_index < THEME_COUNT,
            self.buffer.cursor_row < usize::MAX,
            self.buffer.cursor_col < usize::MAX,
        ensures
            s@ == status_line_text(self@, self.status_msg, builtin_theme(self.theme_index as int).name@, width as int),
    {
        if let Some(msg) = &self.status_msg {
            let mut s = String::new();
            push_text(&mut s, " ");
            let t = msg.text();
            push_text(&mut s, t.as_str());
            return s;
        }
        let mut left = String::new();
        match &self.buffer.file_path {
            Some(p) => {
                push_text(&mut left, " ");
                let n = file_name_of(p.as_str());
                push_text(&mut left, n.as_str());
                if self.buffer.modified {
                    push_text(&mut left, " [+]");
                }
                push_text(&mut left, "  ");
                push_decimal(&mut left, self.buffer.cursor_row + 1);
                push_text(&mut left, ":");
                push_decimal(&mut left, self.buffer.cursor_col + 1);
            },
            None => {
                push_text(&mut left, " No file open");
            },
        }
        assert(left@ =~= status_file_info(self@.buffer));
        let mut right = String::new();
        if self.buffer.anchor.is_some() {
            push_text(&mut right, " SEL ");
        }
        push_text(&mut right, " [");
        match self.focus {
            Focus::Shell => push_text(&mut right, "Shell"),
            Focus::Editor => push_text(&mut right, "Editor"),
            Focus::FileTree => push_text(&mut right, "Files"),
        }
        push_text(&mut right, "] ");
        let theme = self.current_theme();
        push_text(&mut right, theme.name);
        push_text(&mut right, " ");
        assert(right@ =~= status_right(self@, theme.name@));
        let left_len = left.as_str().as_bytes().len();
        let right_len = right.as_str().as_bytes().len();
        let padding = if left_len > width || right_len > width - left_len {
            0
        } else {
            width - left_len - right_len
        };
        let mut s = left;
        push_spaces(&mut s, padding);
        push_text(&mut s, right.as_str());
        proof {
            assert(spaces(padding as int) =~= spaces(width - encode_utf8(status_file_info(self@.buffer)).len()
                - encode_utf8(status_right(self@, theme.name@)).len()));
        }
        s
    }

    /// The editor pane's title.
    pub fn editor_title(&self) -> (s: String)
        ensures
            s@ == editor_title_text(self@.buffer),
    {
        let mut s = String::new();
        match &self.buffer.file_path {
            Some(p) => {
                let n = file_name_of(p.as_str());
                push_text(&mut s, n.as_str());
                if self.buffer.modified {
                    push_text(&mut s, " [+]");
                }
            },
            None => push_text(&mut s, "Editor"),
        }
        s
    }

    /// The file tree pane's title.
    pub fn tree_title(&self) -> (s: String)
        ensures
            s@ == tree_title_text(self.file_tree.root@),
    {
        let n = file_name_of(self.file_tree.root.as_str());
        if n.as_str().is_empty() {
            let mut s = String::new();
            push_text(&mut s, "/");
            s
        } else {
            n
        }
    }
}

impl App {
    /// The state at start-up: focus on the shell, the default theme, the
    /// file tree of `root` (whose listing `snap` holds), an empty buffer and
    /// no highlights yet.
    pub fn new(root: String, snap: &Vec<DirListing>, highlighter: SyntaxHighlighter) -> (app: App)
        ensures
            app.focus == Focus::Shell,
            !app.should_quit,
            app.theme_index == 0,
            app.file_tree@ == fresh_tree(root@, snapshot_view(snap@)),
            app.buffer@ == BufferView::empty(),
            app.status_msg is None,
            app.highlighter == highlighter,
            app.highlight_spans@.len() == 0,
            app.highlight_dirty,
    {
        App {
            focus: Focus::Shell,
            should_quit: false,
            theme_index: 0,
            file_tree: FileTree::new(root, snap),
            buffer: Buffer::new(),
            status_msg: None,
            highlighter,
            highlight_spans: Vec::new(),
            highlight_dirty: true,
        }
    }

    /// The shell was started (`Ok`) or not: its error is shown.
    pub fn init_shell(&mut self, started: Result<(), String>)
        ensures
            final(self)@ == old(self)@,
            match started {
                Ok(()) => final(self).status_msg == old(self).status_msg,
                Err(e) => final(self).status_msg == Some(Status::ShellError(e)),
            },
    {
        if let Err(e) = started {
            self.status_msg = Some(Status::ShellError(e));
        }
    }

    pub fn current_theme(&self) -> (t: Theme)
        requires
            self.theme_index < THEME_COUNT,
        ensures
            t == builtin_theme(self.theme_index as int),
    {
        theme_at(self.theme_index)
    }

    pub fn cycle_focus(&mut self)
        ensures
            final(self)@ == (AppView { focus: next_focus(old(self).focus), ..old(self)@ }),
            final(self).status_msg == old(self).status_msg,
    {
        self.focus = match self.focus {
            Focus::Shell => Focus::Editor,
            Focus::Editor => Focus::FileTree,
            Focus::FileTree => Focus::Shell,
        };
    }

    pub fn cycle_theme(&mut self)
        ensures
            final(self)@ == old(self)@.after_cycle_theme(),
            final(self).status_msg == old(self).status_msg,
    {
        self.theme_index = ((self.theme_index % THEME_COUNT) + 1) % THEME_COUNT;
        self.highlight_dirty = true;
    }

    /// Whether the file tree is to move to the directory `dir` (the shell's
    /// working directory): when it is not the tree's root already.
    pub fn root_moves_to(&self, dir: &String) -> (b: bool)
        ensures
            b == (dir@ != self.file_tree.root@),
    {
        *dir != self.file_tree.root
    }

    /// The shell is now in `dir` (made canonical; `is_dir` tells whether it
    /// is a directory): the file tree moves there, reading it from `snap`,
    /// when it is a directory other than the tree's root.
    pub fn sync_shell_cwd(&mut self, dir: String, is_dir: bool, snap: &Vec<DirListing>)
        ensures
            final(self)@ == if is_dir && dir@ != old(self).file_tree.root@ {
                AppView { file_tree: fresh_tree(dir@, snapshot_view(snap@)), ..old(self)@ }
            } else {
                old(self)@
            },
            final(self).status_msg == old(self).status_msg,
    {
        if is_dir && self.root_moves_to(&dir) {
            self.file_tree = FileTree::new(dir, snap);
        }
    }

    /// Recomputes the syntax highlights if they are out of date: none for
    /// a buffer without a file; otherwise those that the highlighter gives
    /// for the text, the file's extension and the current theme (none where
    /// the extension is missing or of no grammar).
    pub fn update_highlights(&mut self)
        requires
            old(self).theme_index < THEME_COUNT,
        ensures
            final(self)@ == (AppView {
                highlight_dirty: false,
                highlighter: final(self).highlighter,
                highlight_spans: final(self).highlight_spans@,
                ..old(self)@
            }),
            final(self).status_msg == old(self).status_msg,
            !old(self).highlight_dirty ==> final(self)@ == (AppView { highlight_dirty: false, ..old(self)@ }),
            old(self).highlight_dirty ==> final(self).highlight_spans@ == match old(self)@.buffer.file_path {
                None => Seq::empty(),
                Some(p) => highlighted(path_extension(p), old(self)@.buffer.text, builtin_theme(old(self).theme_index as int)),
            },
    {
        if !self.highlight_dirty {
            return;
        }
        self.highlight_dirty = false;
        let ext = match &self.buffer.file_path {
            Some(p) => extension_of(p.as_str()),
            None => {
                self.highlight_spans = Vec::new();
                return;
            },
        };
        if ext.as_str().is_empty() {
            self.highlight_spans = Vec::new();
            return;
        }
        let source = self.buffer.text();
        let theme = self.current_theme();
        self.highlight_spans = self.highlighter.highlight(source.as_str(), ext.as_str(), &theme);
    }

    /// Whether handling `key` stays within the buffer's text, as
    /// `handle_key` asks.
    pub fn key_admissible(&self, key: &KeyEvent) -> (b: bool)
        ensures
            b == self@.key_ok(*key),
    {
        let control_only = key.modifiers.control_only();
        let global = (control_only && (key.code == KeyCode::Char('q') || key.code == KeyCode::Char('t')
            || key.code == KeyCode::Char('s'))) || key.code == KeyCode::BackTab || (key.code
            == KeyCode::Tab && key.modifiers.control);
        if global || self.focus != Focus::Editor {
            return true;
        }
        let is_c = control_only && key.code == KeyCode::Char('c');
        let is_x = control_only && key.code == KeyCode::Char('x');
        let is_a = control_only && key.code == KeyCode::Char('a');
        let is_v = control_only && key.code == KeyCode::Char('v');
        if is_c || is_x {
            return self.buffer.selection_in_text();
        }
        if is_a || is_v || key.code == KeyCode::Esc {
            return true;
        }
        let len = self.buffer.len_chars();
        match key.code {
            KeyCode::Enter => len < usize::MAX && self.buffer.cursor_row < usize::MAX,
            KeyCode::Backspace => self.buffer.backspace_in_text(),
            KeyCode::Delete => self.buffer.delete_in_text(),
            KeyCode::Char(_) => len < usize::MAX,
            _ => true,
        }
    }

    /// Handles a key press: the state changes as `after_key` says and the
    /// effect that it names is returned.
    pub fn handle_key(&mut self, key: KeyEvent) -> (effect: Effect)
        requires
            old(self)@.key_ok(key),
        ensures
            final(self)@ == old(self)@.after_key(key).0,
            effect@ == old(self)@.after_key(key).2,
            match old(self)@.after_key(key).1 {
                StatusChange::Keep => final(self).status_msg == old(self).status_msg,
                StatusChange::Clear => final(self).status_msg is None,
                StatusChange::MarkSet => final(self).status_msg == Some(Status::MarkSet),
                StatusChange::MarkCleared => final(self).status_msg == Some(Status::MarkCleared),
                StatusChange::SelectionCleared => final(self).status_msg == Some(Status::SelectionCleared),
            },
    {
        let control_only = key.modifiers.control_only();
        // Global keybinds, whatever the focus
        if control_only && key.code == KeyCode::Char('q') {
            self.should_quit = true;
            return Effect::Nothing;
        }
        if control_only && key.code == KeyCode::Char('t') {
            self.cycle_theme();
            return Effect::Nothing;
        }
        if control_only && key.code == KeyCode::Char('s') {
            return Effect::SaveFile;
        }
        // Ctrl+Tab / Shift+Tab cycles focus from any pane
        if key.code == KeyCode::BackTab || (key.code == KeyCode::Tab && key.modifiers.control) {
            self.cycle_focus();
            return Effect::Nothing;
        }
        // Shell: forward everything except the above to the shell
        if self.focus == Focus::Shell {
            return match key_to_shell_bytes(&key) {
                Some(bytes) => Effect::SendToShell(bytes),
                None => Effect::Nothing,
            };
        }
        // Editor-specific selection keybinds
        if self.focus == Focus::Editor {
            if control_only && key.code == KeyCode::Char('a') {
                // Ctrl+A: toggle mark (start/stop selection)
                self.buffer.toggle_mark();
                if self.buffer.anchor.is_some() {
                    self.status_msg = Some(Status::MarkSet);
                } else {
                    self.status_msg = Some(Status::MarkCleared);
                }
                return Effect::Nothing;
            }
            if control_only && key.code == KeyCode::Char('c') {
                // Ctrl+C: copy the selection; with nothing marked, quit
                if self.buffer.anchor.is_some() {
                    if let Some(text) = self.buffer.selected_text() {
                        return Effect::CopyToClipboard(text);
                    }
                } else {
                    self.should_quit = true;
                }
                return Effect::Nothing;
            }
            if control_only && key.code == KeyCode::Char('x') {
                // Ctrl+X: cut selection
                if self.buffer.anchor.is_some() {
                    if let Some(text) = self.buffer.delete_selection() {
                        self.highlight_dirty = true;
                        return Effect::CutToClipboard(text);
                    }
                }
                return Effect::Nothing;
            }
            if control_only && key.code == KeyCode::Char('v') {
                // Ctrl+V: paste
                return Effect::ReadClipboard;
            }
            if key.code == KeyCode::Esc {
                // Escape: clear selection
                if self.buffer.anchor.is_some() {
                    self.buffer.clear_selection();
                    self.status_msg = Some(Status::SelectionCleared);
                }
                return Effect::Nothing;
            }
        }
        // Ctrl+C from the file tree: quit
        if self.focus == Focus::FileTree && control_only && key.code == KeyCode::Char('c') {
            self.should_quit = true;
            return Effect::Nothing;
        }
        // Clear status message on any non-global key
        self.status_msg = None;
        // Pane-specific keybinds
        if self.focus == Focus::FileTree {
            match key.code {
                KeyCode::Up => self.file_tree.move_up(),
                KeyCode::Down => self.file_tree.move_down(),
                KeyCode::Enter => {
                    return self.open_selected_file();
                },
                _ => {},
            }
            return Effect::Nothing;
        }
        match key.code {
            KeyCode::Up => self.buffer.move_up(),
            KeyCode::Down => self.buffer.move_down(),
            KeyCode::Left => self.buffer.move_left(),
            KeyCode::Right => self.buffer.move_right(),
            KeyCode::Home => self.buffer.move_home(),
            KeyCode::End => self.buffer.move_end(),
            KeyCode::Enter => {
                self.buffer.insert_newline();
                self.highlight_dirty = true;
            },
            KeyCode::Backspace => {
                self.buffer.backspace();
                self.highlight_dirty = true;
            },
            KeyCode::Delete => {
                self.buffer.delete();
                self.highlight_dirty = true;
            },
            KeyCode::Char(c) => {
                self.buffer.insert_char(c);
                self.highlight_dirty = true;
            },
            _ => {},
        }
        Effect::Nothing
    }

    /// Enter on the file tree: a directory is expanded or collapsed, a file
    /// is opened.
    fn open_selected_file(&self) -> (effect: Effect)
        ensures
            match self.file_tree@.selected_entry() {
                None => effect@ == EffectView::Nothing,
                Some(e) => effect@ == if e.is_dir {
                    EffectView::ToggleDirectory
                } else {
                    EffectView::OpenFile(e.path)
                },
            },
    {
        let entry = match self.file_tree.selected_entry() {
            Some(e) => e,
            None => {
                return Effect::Nothing;
            },
        };
        if entry.is_dir {
            return Effect::ToggleDirectory;
        }
        Effect::OpenFile(entry.path.clone())
    }

    /// The directory that Enter chose is expanded or collapsed; `snap`
    /// holds the listings of the tree's directories.
    pub fn finish_toggle(&mut self, snap: &Vec<DirListing>)
        requires
            snapshot_ok(snapshot_view(snap@)),
        ensures
            final(self)@ == (AppView { file_tree: old(self)@.file_tree.toggled(snapshot_view(snap@)), ..old(self)@ }),
            final(self).status_msg == old(self).status_msg,
    {
        self.file_tree.toggle_expand(snap);
    }

    /// The file at `path` was read (`Ok` with its contents) or not (`Err`
    /// with the reason): it is loaded into the buffer and the editor takes
    /// the focus, or the error is shown.
    pub fn finish_open(&mut self, path: String, read: Result<String, String>)
        ensures
            match read {
                Ok(contents) => final(self)@ == (AppView {
                    buffer: BufferView::opened(path@, contents@),
                    focus: Focus::Editor,
                    highlight_dirty: true,
                    ..old(self)@
                }) && final(self).status_msg == Some(Status::Opened(path)),
                Err(e) => final(self)@ == old(self)@ && final(self).status_msg == Some(
                    Status::OpenError(e),
                ),
            },
    {
        match read {
            Ok(contents) => {
                self.buffer.open_file(path.clone(), contents.as_str());
                self.focus = Focus::Editor;
                self.highlight_dirty = true;
                self.status_msg = Some(Status::Opened(path));
            },
            Err(e) => {
                self.status_msg = Some(Status::OpenError(e));
            },
        }
    }

    /// The selection was put on the clipboard (`Ok`) or not.
    pub fn finish_copy(&mut self, text: &String, result: Result<(), String>)
        ensures
            final(self)@ == old(self)@,
            match result {
                Ok(()) => final(self).status_msg == Some(
                    Status::Copied(encode_utf8(text@).len() as usize),
                ),
                Err(e) => final(self).status_msg == Some(Status::ClipboardError(e)),
            },
    {
        match result {
            Ok(()) => {
                let len = text.as_str().len();
                self.status_msg = Some(Status::Copied(len));
            },
            Err(e) => {
                self.status_msg = Some(Status::ClipboardError(e));
            },
        }
    }

    /// The text cut from the buffer was put on the clipboard (`Ok`) or not.
    pub fn finish_cut(&mut self, text: &String, result: Result<(), String>)
        ensures
            final(self)@ == old(self)@,
            match result {
                Ok(()) => final(self).status_msg == Some(
                    Status::Cut(encode_utf8(text@).len() as usize),
                ),
                Err(e) => final(self).status_msg == Some(Status::ClipboardError(e)),
            },
    {
        match result {
            Ok(()) => {
                let len = text.as_str().len();
                self.status_msg = Some(Status::Cut(len));
            },
            Err(e) => {
                self.status_msg = Some(Status::ClipboardError(e));
            },
        }
    }

    /// The clipboard was read (`Ok` with its text) or not: the text replaces
    /// the selection, if there is one, or goes in at the cursor.
    pub fn finish_paste(&mut self, read: Result<String, String>)
        requires
            old(self)@.buffer.selection_ok(),
            read matches Ok(t) ==> old(self)@.buffer.text.len() + t@.len() <= usize::MAX,
        ensures
            match read {
                Ok(text) => final(self)@ == (AppView {
                    buffer: (if old(self)@.buffer.anchor is Some {
                        old(self)@.buffer.after_delete_selection()
                    } else {
                        old(self)@.buffer
                    }).after_insert_str(text@),
                    highlight_dirty: true,
                    ..old(self)@
                }) && final(self).status_msg == Some(
                    Status::Pasted(encode_utf8(text@).len() as usize),
                ),
                Err(e) => final(self)@ == old(self)@ && final(self).status_msg == Some(
                    Status::ClipboardError(e),
                ),
            },
    {
        match read {
            Ok(text) => {
                // If there's an active selection, delete it first
                if self.buffer.anchor.is_some() {
                    self.buffer.delete_selection();
                }
                proof {
                    lemma_delete_selection_shrinks(old(self)@.buffer);
                }
                self.buffer.insert_str(text.as_str());
                self.highlight_dirty = true;
                let len = text.as_str().len();
                self.status_msg = Some(Status::Pasted(len));
            },
            Err(e) => {
                self.status_msg = Some(Status::ClipboardError(e));
            },
        }
    }

    /// The buffer's text was written to its file (`Ok`; also when it has no
    /// file, for there is nothing to write) or not.
    pub fn finish_save(&mut self, result: Result<(), String>)
        ensures
            match result {
                Ok(()) => final(self)@ == (AppView {
                    buffer: if old(self)@.buffer.file_path is Some {
                        BufferView { modified: false, ..old(self)@.buffer }
                    } else {
                        old(self)@.buffer
                    },
                    ..old(self)@
                }) && final(self).status_msg == Some(Status::Saved(old(self).buffer.file_path)),
                Err(e) => final(self)@ == old(self)@ && final(self).status_msg == Some(
                    Status::SaveError(e),
                ),
            },
    {
        let path = match &self.buffer.file_path {
            Some(p) => Some(p.clone()),
            None => None,
        };
        match self.buffer.save(result) {
            Ok(()) => {
                self.status_msg = Some(Status::Saved(path));
            },
            Err(e) => {
                self.status_msg = Some(Status::SaveError(e));
            },
        }
    }
}

} // verus!
