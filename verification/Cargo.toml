[package]
name = "amberol"
version = "0.1.0"
edition = "2021"
publish = false

[dependencies]
rand = "=0.8.8"
sha2 = "=0.10.9"
fuzzy-matcher = "=0.3.7"
color-thief = "=0.2.2"
log = "0.4"
serde_json = "1"
once_cell = "1"
async-channel = "2"
futures = "0.3"
lofty = "=0.25.4"
mpris-server = "=0.10.0"
ashpd = "=0.13.13"
pretty_env_logger = "0.5"
glib = "0.20"
gtk4 = "0.9"
libadwaita = "0.7"
gdk-pixbuf = "0.20"
gstreamer = "0.23"
gstreamer-audio = "0.23"
gstreamer-player = "0.23"
gettext-rs = "0.7"
