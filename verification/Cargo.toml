[package]
name = "triage_queue"
version = "0.1.0"
edition = "2021"

[dependencies]
rand = "0.8"
rand_chacha = "0.3"
rand_distr = "0.4"
