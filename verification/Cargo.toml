[package]
name = "rc_8"
version = "0.1.0"
edition = "2021"
publish = false

[dependencies]
bitvec = "1"
clap = { version = "4", features = ["derive"] }
egui = "0.20"
egui_file = "0.5"
rand = "0.8"
rodio = { version = "0.16", default-features = false, features = ["vorbis"] }
