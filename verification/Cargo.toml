[package]
name = "tada_compose"
version = "0.1.0"
edition = "2021"
publish = false

[dependencies]
diffy = "0.3"
serde = { version = "1", features = ["derive"] }
serde_json = "1"
anyhow = "1"
fs_extra = "1"
relative-path = "1"
cliclack = "*"
console = "*"
atty = "0.2"
