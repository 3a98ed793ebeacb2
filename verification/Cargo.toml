[package]
name = "quiz_auth"
version = "0.1.0"
edition = "2021"
publish = false

[dependencies]
base64ct = { version = "*", features = ["alloc"] }
bcrypt = "*"
hmac = "0.12"
sha2 = "0.10"
actix-files = "0.6"
actix-web = { version = "4", default-features = false, features = ["macros", "cookies"] }
rand = "0.9"
serde = { version = "1", features = ["derive"] }
sqlx = { version = "0.8", default-features = false, features = ["postgres", "runtime-tokio"] }
tera = { version = "1", default-features = false }
time = "0.3"
yaml-rust2 = "*"
