[package]
name = "bevy_minibuffer"
version = "0.4.1"
edition = "2021"
publish = false

[dependencies]
trie-rs = "=0.4.2"
tabular = "=0.2.0"
bevy = { version = "=0.16.1", default-features = false, features = ["x11"] }
bevy-input-sequence = "=0.8.1"
keyseq = { version = "=0.6.0", features = ["bevy"] }
bitflags = "=2.13.2"
thiserror = "=2.0.21"
