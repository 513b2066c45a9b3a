[package]
name = "hps_ble"
version = "0.1.0"
edition = "2021"
publish = false

[dependencies]
bluer = { version = "*", features = ["bluetoothd"] }
byteorder = "1"
clap = { version = "4", features = ["derive"] }
futures = "0.3"
reqwest = { version = "0.12", default-features = false, features = ["rustls-tls"] }
thiserror = "*"
tokio = { version = "1", features = ["macros", "rt", "signal", "sync", "time"] }
tracing = "0.1"
tracing-subscriber = "0.3"
