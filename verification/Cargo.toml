[package]
name = "rustine"
version = "0.1.0"
edition = "2021"
publish = false

[dependencies]
qbsdiff = "=1.4.4"
pretty-hex = "=0.4.2"
facet = "=0.43.2"
facet-args = "=0.43.2"
facet-reflect = "=0.43.2"
miette = { version = "=7.6.0", features = ["fancy"] }
thiserror = "=2.0.21"
indicatif = "=0.18.6"
owo-colors = "=4.4.0"
