[package]
name = "serde_xml"
version = "0.1.0"
edition = "2021"
publish = false

[dependencies]
serde = "1"
xml-rs = "0.8"
