[package]
name = "yatui"
version = "0.1.0"
edition = "2021"
publish = false

[dependencies]
unicode-segmentation = "1"
unicode-width = "0.1"
smallvec = "1"
compact_str = "0.7"
bitflags = "1"
cassowary = "0.3"
thiserror = "1"
log = "0.4"
tokio = { version = "1", features = ["rt", "rt-multi-thread"] }
termion = "2"
