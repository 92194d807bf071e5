[package]
name = "hyprland-easyfocus"
version = "0.1.0"
edition = "2021"
publish = false

[dependencies]
config = { version = "*", default-features = false, features = ["json"] }
dirs = "*"
gtk4 = { version = "*", features = ["v4_12"] }
gtk4-layer-shell = "*"
hyprland = "0.4.0-beta.2"
serde = { version = "1", features = ["derive"] }
