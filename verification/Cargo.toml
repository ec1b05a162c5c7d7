[package]
name = "albumscan"
version = "0.1.0"
edition = "2021"
publish = false

[dependencies]
color-eyre = "=0.6.5"
crossterm = "=0.29.0"
id3 = "=1.17.2"
metaflac = "=0.2.8"
mp4ameta = "=0.13.0"
musicbrainz_rs = { version = "=0.14.0", features = ["sync"] }
ratatui = "=0.30.2"
ratatui-macros = "=0.7.2"
rayon = "=1.12.0"
tokio = { version = "=1.53.2", features = ["rt", "rt-multi-thread", "time", "macros", "sync"] }
walkdir = "=2.5.0"
