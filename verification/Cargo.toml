[package]
name = "tienda"
version = "0.1.0"
edition = "2021"
publish = false

[dependencies]
bigdecimal = "0.4"
uuid = "1"
diesel = { version = "2", default-features = false, features = ["postgres", "uuid", "numeric"] }
dotenvy = "0.15"
actix-web = { version = "4", default-features = false, features = ["macros"] }
actix-files = "0.6"
tera = { version = "1", default-features = false }
serde = { version = "1", features = ["derive"] }
lazy_static = "1"
