[package]
name = "litio"
version = "0.1.0"
edition = "2021"
publish = false

[dependencies]
rand = "=0.7.3"
bincode = "=1.3.3"
serde = { version = "=1.0.229", features = ["derive"] }
laminar = "=0.3.2"
crossbeam-channel = "=0.3.9"
nalgebra = { version = "0.30", features = ["serde-serialize"] }
ncollide3d = "0.33"
nphysics3d = "0.24"
kiss3d = "0.35"
structopt = "=0.3.26"
