[package]
name = "slatedb_cache"
version = "0.1.0"
edition = "2021"
publish = false

[dependencies]
async-channel = "=2.5.0"
async-trait = "=0.1.92"
chrono = "=0.4.45"
foyer = "=0.22.6"
log = "=0.4.35"
object_store = "=0.14.2"
parking_lot = "=0.12.5"
quick_cache = "=0.6.24"
sysinfo = "=0.37.2"
tokio = { version = "=1.54.1", features = ["rt", "sync", "time"] }
