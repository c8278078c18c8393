[package]
name = "rust_embed"
version = "0.1.0"
edition = "2021"
publish = false

[dependencies]
globset = "0.4"
sha2 = "0.10"
base85 = "*"
flate2 = "1"
chrono = "0.4"
new_mime_guess = "4"
walkdir = "2"
syn = "2"
quote = "1"
proc-macro2 = "1"
shellexpand = "3"
