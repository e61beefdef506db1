[package]
name = "darkdesk_api"
version = "0.1.0"
edition = "2021"
publish = false

[dependencies]
chrono = "0.4"
md5 = "0.7"
serde_json = "1"
whoami = "1"
sysinfo = "0.30"
winapi = { version = "0.3", features = ["processthreadsapi", "handleapi", "winnt"] }
