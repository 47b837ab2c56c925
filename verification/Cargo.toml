[package]
name = "ad_ode"
version = "0.1.0"
edition = "2021"
publish = false

[dependencies]
rayon = "1"
ndarray = "0.15"
ndarray-linalg = "0.16"
polars = { version = "*", default-features = false, features = ["parquet"] }
tqdm = "*"
indicatif = "0.17"
