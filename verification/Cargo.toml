[package]
name = "imgsort"
version = "0.1.0"
edition = "2021"
publish = false

[dependencies]
chrono = "0.4"
kamadak-exif = "*"
sha1 = "0.10"
clap = "4"
