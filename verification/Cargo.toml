[package]
name = "frienduro"
version = "0.1.0"
edition = "2021"
publish = false

[dependencies]
chrono = "=0.4.45"
elementtree = "=1.2.3"
gpx = "=0.7.0"
postgres = { version = "=0.19.14", features = ["with-chrono-0_4"] }
postgis = "=0.9.0"
dotenv = "=0.15.0"
getopts = "=0.2.24"
actix-web = "=4.18.1"
futures = "=0.3.34"
r2d2 = "=0.8.10"
r2d2_postgres = "=0.18.2"
serde = { version = "=1.0.229", features = ["derive"] }
serde_json = "=1.0.154"
