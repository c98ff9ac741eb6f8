[package]
name = "k4q"
version = "0.1.0"
edition = "2021"
publish = false

[dependencies]
rdkafka = "*"
futures = "*"
