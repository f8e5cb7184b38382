[package]
name = "wkb2mvt"
version = "0.1.0"
edition = "2021"
publish = false

[dependencies]
geozero = { version = "=0.15.1", features = ["with-wkb", "with-mvt"] }
geo-types = "=0.7.20"
