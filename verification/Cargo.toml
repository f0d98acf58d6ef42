[package]
name = "sjs"
version = "0.1.0"
edition = "2021"
publish = false

[dependencies]
url = "*"
data-url = "*"
twox-hash = "*"
import_map = "*"
tokio = { version = "*", features = ["full"] }
clap = "*"
home = "*"
rand = "*"
once_cell = "*"
backtrace = "*"
panic-message = "*"
thiserror = "*"
or-panic = "*"
