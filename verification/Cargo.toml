[package]
name = "todomvc"
version = "0.1.0"
edition = "2021"
publish = false

[dependencies]
console_error_panic_hook = "=0.1.7"
seed = { version = "=0.10.0", features = ["routing"] }
strum = "=0.28.0"
strum_macros = "=0.28.0"
ulid = "=1.2.1"
web-sys = { version = "=0.3.106", features = ["HtmlInputElement"] }
