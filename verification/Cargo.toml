[package]
name = "gamehub"
version = "0.1.1"
edition = "2021"
publish = false

[dependencies]
regex = "1"
serde_json = "1"
gtk4 = "*"
libadwaita = { version = "*", features = ["v1_5"] }
glib = "*"
gio = "*"
