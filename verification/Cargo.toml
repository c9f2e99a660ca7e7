[package]
name = "optic_mart"
version = "0.1.0"
edition = "2021"
publish = false

[dependencies]
regex = "=1.13.1"
bcrypt = "=0.19.3"
uuid = { version = "=1.29.0", features = ["v4"] }
actix-web = { version = "=4.18.1", default-features = false, features = ["macros"] }
actix-cors = "=0.7.2"
async-std = "=1.13.2"
chrono = { version = "=0.4.45", features = ["serde"] }
config = { version = "=0.15.27", default-features = false, features = ["toml"] }
futures = "=0.3.34"
jsonwebtoken = "=9.3.1"
lazy_static = "=1.5.1"
postgres = { version = "=0.19.14", features = ["with-chrono-0_4"] }
reqwest = { version = "=0.13.5", default-features = false, features = ["blocking", "json"] }
serde = { version = "=1.0.229", features = ["derive"] }
serde_json = "=1.0.154"
surf = { version = "=2.3.2", default-features = false, features = ["h1-client-no-tls"] }
