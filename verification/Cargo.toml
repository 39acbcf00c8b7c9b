[package]
name = "cqrs"
version = "0.1.0"
edition = "2021"
publish = false

[dependencies]
hashbrown = "0.9"
parking_lot = "0.12"
void = "1"
