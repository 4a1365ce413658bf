[package]
name = "jansforth"
version = "0.1.0"
edition = "2021"
publish = false

[dependencies]
anyhow = "1"
libc = "0.2"
pyo3 = "0.22"
wasi-common = "17"
wasmtime = "17"
wasmtime-wasi = "17"
