[package]
name = "parallax"
version = "0.1.0"
edition = "2021"
publish = false

[dependencies]
bevy = { version = "=0.6.1", default-features = false, features = ["render"] }
# Not called from any code: bevy 0.6's derive crates use syn's `full` syntax
# tree without asking for that feature, and do not build unless another
# macro crate in the graph turns it on. darling does.
darling = "=0.13.4"
