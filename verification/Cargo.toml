[package]
name = "popup_core"
version = "0.1.0"
edition = "2021"
publish = false

[dependencies]
gdk4 = "0.9"
gio = "0.20"
glib = "0.20"
gtk4 = "0.9"
gtk4-layer-shell = "*"
libc = "=0.2.191"
