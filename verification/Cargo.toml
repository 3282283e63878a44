[package]
name = "builder_jobsrv"
version = "0.1.0"
edition = "2021"
publish = false

[dependencies]
diesel = { version = "1.4", default-features = false }
protobuf = "2"
