[package]
name = "raid_monitor"
version = "0.1.0"
edition = "2021"
publish = false

[dependencies]
regex = "1"
notify-rust = "4"
