[package]
name = "amita"
version = "0.1.0"
edition = "2021"
publish = false

[dependencies]
ndarray = "0.15"
linfa-linalg = "0.1"
statrs = "0.16"
argmin = "0.8"
argmin-math = "0.3"
thiserror = "1"
polars = { version = "0.38", default-features = false, features = ["lazy", "csv", "ndarray"] }
