[package]
name = "kaleidscope"
version = "0.1.0"
edition = "2021"
publish = false

[dependencies]
llvm-sys = { version = "=140.1.3", features = ["force-dynamic"] }
rustyline = "=19.0.0"

[dev-dependencies]
combine = "=3.8.1"
