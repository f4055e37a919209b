[package]
name = "pandemic"
version = "0.1.0"
edition = "2021"
publish = false

[dependencies]
rand = "=0.7.3"
rand_distr = "=0.2.2"
rand_xorshift = "=0.2.0"
plotters = { version = "=0.3.7", default-features = false, features = ["bitmap_backend", "bitmap_encoder"] }
serde = { version = "=1.0.229", features = ["derive"] }
