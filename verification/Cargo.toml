[package]
name = "dicomscan"
version = "0.1.0"
edition = "2021"
publish = false

[dependencies]
zip = "*"
dicom = "*"
rayon = "*"
clap = { version = "*", features = ["derive"] }
