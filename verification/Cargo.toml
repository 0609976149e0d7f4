[package]
name = "retour_utils"
version = "0.1.0"
edition = "2021"
publish = false

[dependencies]
syn = { version = "2", features = ["full", "fold", "extra-traits"] }
quote = "1"
proc-macro2 = "1"
proc-macro-crate = "3"
minidl = "0.1"
retour = { version = "0.3", default-features = false }
