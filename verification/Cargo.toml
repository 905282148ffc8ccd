[package]
name = "artistlibrepaint"
version = "0.1.0"
edition = "2021"
publish = false

[dependencies]
cairo-rs = "*"
gdk4 = "*"
glib = "*"
gtk4 = { version = "*", features = ["v4_10"] }
