[package]
name = "asr_dotnet"
version = "0.1.0"
edition = "2021"
publish = false

[dependencies]
bstr = { version = "=1.13.1", default-features = false }
itoa = "=1.0.18"
