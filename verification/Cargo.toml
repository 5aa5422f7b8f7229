[package]
name = "spirv-bindgen"
version = "0.1.0"
edition = "2021"
publish = false

[dependencies]
rspirv = "*"
spirv = "*"
itertools = "*"
proc-macro2 = "1"
quote = "1"
syn = { version = "2", features = ["full"] }
convert_case = "*"
clap = { version = "4", features = ["derive"] }
color-eyre = "0.6"
thiserror = "*"
regex = "1"
pathdiff = "0.2"
tracing = "0.1"
tracing-appender = "0.2"
tracing-subscriber = "0.3"
