[package]
name = "sensor_beacons"
version = "0.1.0"
edition = "2021"
publish = false

[dependencies]
anyhow = "*"
btleplug = "*"
open-meteo-rs = "*"
questdb-rs = "*"
tokio = { version = "*", features = ["macros", "rt-multi-thread", "time"] }
uuid = "*"
