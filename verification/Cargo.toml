[package]
name = "glam_cpi_gen"
version = "0.1.0"
edition = "2021"
publish = false

[dependencies]
sha2 = "*"
heck = "*"
clap = { version = "*", features = ["derive"] }
serde = { version = "*", features = ["derive"] }
serde_json = "*"
serde_yaml = "*"
quote = "*"
proc-macro2 = "*"
syn = "*"
prettyplease = "*"
