[package]
name = "beatrice_http"
version = "0.1.0"
edition = "2021"
publish = false

[dependencies]
itoa = "=0.4.8"
log = "=0.4.34"
percent-encoding = "=2.3.2"
string-wrapper = "=0.3.0"
tokio = { version = "=0.2.25", features = ["io-util"] }
