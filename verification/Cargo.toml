[package]
name = "parcel"
version = "0.1.0"
edition = "2021"
publish = false

[dependencies]
esparse = "=0.1.0"
