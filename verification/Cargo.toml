[package]
name = "mewtui"
version = "0.1.0"
edition = "2021"
publish = false

[dependencies]
ropey = "1"
vte = "*"
ratatui = "*"
crossterm = "*"
portable-pty = "*"
arboard = "*"
tree-sitter = "*"
tree-sitter-highlight = "*"
tree-sitter-rust = "*"
tree-sitter-javascript = "*"
tree-sitter-python = "*"
tree-sitter-json = "*"
tree-sitter-toml-ng = "*"
tree-sitter-go = "*"
