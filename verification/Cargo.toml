[package]
name = "vo_lang"
version = "0.1.0"
edition = "2021"
publish = false

[dependencies]
regex = "1"
hashbrown = "0.14"
syn = { version = "2", features = ["full"] }
dirs = "5"
