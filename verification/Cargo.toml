[package]
name = "horizon-lattice"
version = "0.1.0"
edition = "2021"
publish = false

[dependencies]
chrono = "0.4"
chrono-tz = "*"
unicode-segmentation = "1"
tray-icon = "*"
