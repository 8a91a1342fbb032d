[package]
name = "sqlbind"
version = "0.1.0"
edition = "2021"
publish = false

[dependencies]
sqlparser = "=0.63.0"
proc-macro2 = "=1.0.107"
syn = { version = "=2.0.119", features = ["full"] }
quote = "=1.0.47"
