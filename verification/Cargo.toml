[package]
name = "music_sorter"
version = "0.1.0"
edition = "2021"
publish = false

[dependencies]
zip = { version = "*", default-features = false, features = ["deflate"] }
id3 = "*"
config = { version = "*", default-features = false, features = ["toml"] }
