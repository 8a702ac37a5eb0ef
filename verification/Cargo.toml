[package]
name = "host_telemetry"
version = "0.1.0"
edition = "2021"
publish = false

[dependencies]
lazy_static = "1"
local_ipaddress = "0.1"
num_cpus = "1"
serde = { version = "1", features = ["derive"] }
serde_json = "1"
sysinfo = "0.29"
winapi = { version = "0.3", features = ["handleapi", "processthreadsapi", "psapi", "winnt"] }
