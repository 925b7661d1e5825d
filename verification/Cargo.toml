[package]
name = "ble_scan"
version = "0.1.0"
edition = "2021"
publish = false

[dependencies]
bitflags = "=2.13.2"
bluer = { version = "=0.17.4", features = ["bluetoothd"] }
chrono = "=0.4.45"
# No code here names dbus. It is listed for its `vendored` feature alone, which
# builds the D-Bus client library from source, so that bluer's `bluetoothd`
# feature builds on a machine without the system library.
dbus = { version = "=0.9.12", features = ["vendored"] }
env_logger = "=0.11.11"
futures = "=0.3.34"
num_enum = "=0.7.6"
serde = { version = "=1.0.229", features = ["derive"] }
serde_json = "=1.0.154"
tokio = { version = "=1.54.1", features = ["macros", "rt"] }
