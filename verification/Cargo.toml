[package]
name = "personalized_pricing"
version = "0.1.0"
edition = "2021"
publish = false

[dependencies]
priority-queue = "*"
rand = "0.8"
rand_distr = "0.4"
csv = "1"
