[package]
name = "tide"
version = "0.1.0"
edition = "2021"
publish = false

[dependencies]
ansi-to-tui = "*"
anyhow = "*"
bstr = "*"
crc64 = "*"
crossbeam-channel = "*"
crossterm = "*"
grep-regex = "*"
grep-searcher = "*"
ignore = "*"
nucleo = "*"
pathdiff = "*"
portable-pty = "*"
ratatui = "*"
ratatui-code-editor = "*"
rayon = "*"
walkdir = "*"
