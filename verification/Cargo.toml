[package]
name = "runner"
version = "0.1.0"
edition = "2021"
publish = false

[dependencies]
chrono = "0.4"
env_logger = "0.6"
fern = "0.6"
log = "0.4"
notify = "4.0"
winapi = { version = "0.3", features = ["consoleapi", "wincon"] }
