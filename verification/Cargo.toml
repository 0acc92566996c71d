[package]
name = "pdb_tui"
version = "0.1.0"
edition = "2021"
publish = false

[dependencies]
ab_glyph = "0.2"
chrono = "0.4"
clap = { version = "4", features = ["derive"] }
crossterm = "0.27"
image = { version = "0.25", default-features = false, features = ["png"] }
nalgebra = "0.32"
parry3d = "0.13"
pdbtbx = "0.11"
ratatui = "0.26"
tobj = "4"
