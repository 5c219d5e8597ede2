[package]
name = "dbtest_harness"
version = "0.1.0"
edition = "2021"
publish = false

[dependencies]
diesel = { version = "*", features = ["postgres", "r2d2"] }
dotenv = "*"
lazy_static = "*"
rocket = "*"
