[package]
name = "vim_textarea"
version = "0.1.0"
edition = "2021"
publish = false

[dependencies]
ratatui = "*"
ratatui-textarea = "*"
tokio = { version = "1", features = ["sync"] }
color-eyre = "0.6"
log = "0.4"
arboard = { version = "3", default-features = false }
