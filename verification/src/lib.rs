//! mewtui: a three-pane terminal editor (shell, editor, file tree), as a
//! library of verified state and rules. The program around it reads keys,
//! files, directories, the clipboard and the shell's PTY, and draws.
pub mod app;
pub mod editor;
pub mod filetree;
pub mod keys;
pub mod shell;
pub mod theme;
pub mod ui;
