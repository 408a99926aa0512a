[package]
name = "glint_screenshot"
version = "0.1.1"
edition = "2021"
publish = false

[dependencies]
anyhow = "1"
ashpd = { version = "0.10", features = ["gtk4"] }
async-std = "1"
cairo-rs = { version = "0.20", features = ["png"] }
enumflags2 = "0.7"
env_logger = "0.11"
gdk4 = { version = "0.9", features = ["v4_14"] }
gio = "0.20"
glib = "0.20"
gtk4 = { version = "0.9", features = ["v4_14"] }
gtk4-layer-shell = "0.4"
log = "0.4"
pipewire = "0.9"
zbus = "5"
zune-png = "0.4"
