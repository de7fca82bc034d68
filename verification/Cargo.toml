[package]
name = "process_anywhere"
version = "0.1.0"
edition = "2021"
publish = false

[dependencies]
libc = "0.2"
shell-escape = "0.1"
ssh2 = "0.9"
thiserror = "2"
