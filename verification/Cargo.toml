[package]
name = "directory_player"
version = "0.1.0"
edition = "2021"
publish = false

[dependencies]
arrayvec = "0.7"
base64 = "0.21"
cpal = "0.15"
log = "0.4"
rand = "0.8"
random_color = "0.6"
rtrb = "0.2"
rubato = "0.14"
serde = { version = "1", features = ["derive"] }
symphonia = { version = "0.5", features = ["mp3"] }
tokio = { version = "1", features = ["sync"] }
