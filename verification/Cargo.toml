[package]
name = "blokmap"
version = "0.1.0"
edition = "2021"
publish = false

[dependencies]
chrono = { version = "=0.4.45", default-features = false, features = ["clock", "std"] }
regex = "=1.13.1"
validator = "=0.21.0"
uuid = { version = "=1.29.0", features = ["v4"] }
convert_case = "=0.12.0"
rand = "=0.9.5"
serde = { version = "=1.0.229", features = ["derive"] }
thiserror = "=2.0.21"
argon2 = "=0.5.3"
diesel = { version = "=2.3.14", default-features = false }
# The status codes the server answers with: the `StatusCode` that axum
# re-exports comes from this crate, used here without the server.
http = "=1.5.0"
url = "=2.5.8"
lettre = { version = "=0.11.23", default-features = false, features = ["builder", "smtp-transport"] }
