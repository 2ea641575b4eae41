[package]
name = "please"
version = "0.1.0"
edition = "2021"
publish = false

[dependencies]
diesel = { version = "=2.3.13", features = ["postgres", "chrono"] }
chrono = "=0.4.45"
