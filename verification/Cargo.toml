[package]
name = "aging_sim"
version = "0.1.0"
edition = "2021"
publish = false

[dependencies]
rand = "0.8"
rayon = "1"
log = "0.4"
simple-logging = "2"
structopt = "0.3"
