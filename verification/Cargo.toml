[package]
name = "weather_wallpaper"
version = "0.1.0"
edition = "2021"
publish = false

[dependencies]
rand = "=0.8.8"
serde = { version = "=1.0.229", features = ["derive"] }
serde_json = "=1.0.151"
reqwest = { version = "=0.13.5", default-features = false, features = ["json"] }
tokio = { version = "=1.53.2", features = ["macros", "rt-multi-thread"] }
dirs = "=7.0.0"
colored = "=3.1.1"
console = "=0.16.6"
dialoguer = "=0.12.0"
indicatif = "=0.18.6"
viuer = { version = "=0.11.0", features = ["print-file"] }
wallpaper = "=3.2.0"
