[package]
name = "mikan_os"
version = "0.1.0"
edition = "2021"
publish = false

[dependencies]
rand = "0.8"
libm = "0.2"
log = "0.4"
syn = { version = "2", features = ["full"] }
quote = "1"
proc-macro2 = "1"
uefi = "0.28"
uefi-services = { version = "0.25", default-features = false, features = ["logger"] }
