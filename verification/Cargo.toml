[package]
name = "driveway_filter"
version = "0.1.0"
edition = "2021"
publish = false

[dependencies]
osmpbfreader = "*"
time = "0.2"
xml-rs = "0.8"
