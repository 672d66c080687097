[package]
name = "calendar_directory"
version = "0.1.0"
edition = "2021"
publish = false

[dependencies]
gdk4 = "=0.11.5"
jiff = "=0.2.38"
tracing = "=0.1.44"
tracker-rs = "=0.8.0"
zbus = "=5.19.0"
