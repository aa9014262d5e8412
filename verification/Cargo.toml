[package]
name = "displaylink_driver"
version = "0.2.0"
edition = "2021"
publish = false

[dependencies]
rusb = "0.9"
