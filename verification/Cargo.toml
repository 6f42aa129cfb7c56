[package]
name = "divvun_api"
version = "0.1.0"
edition = "2021"
publish = false

[dependencies]
actix = "=0.13.5"
actix-web = { version = "=4.18.1", default-features = false, features = ["macros"] }
failure = "=0.1.8"
futures = "=0.3.34"
hashbrown = "=0.9.1"
juniper = { version = "=0.17.1", default-features = false }
log = "=0.4.34"
notify = "=4.0.18"
parking_lot = "=0.13.0"
serde = { version = "=1.0.229", features = ["derive"] }
serde_derive = "=1.0.229"
serde_json = "=1.0.154"
