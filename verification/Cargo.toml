[package]
name = "glade_bindgen"
version = "0.1.0"
edition = "2021"
publish = false

[dependencies]
xml-rs = "*"
convert_case = "*"
