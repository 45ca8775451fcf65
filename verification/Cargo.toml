[package]
name = "junglebeast"
version = "0.1.0"
edition = "2021"
publish = false

[dependencies]
hecs = "0.10"
macroquad = "0.4"
renet = "1"
renet_netcode = "1"
parry3d = { version = "0.17", features = ["serde-serialize"] }
gltf = { version = "1", features = ["extras"] }
serde = { version = "1", features = ["derive"] }
serde_json = "1"
bincode = "1.3"
clap = { version = "4", features = ["derive"] }
tokio = { version = "1", features = ["rt", "macros"] }
