[package]
name = "audio-lab"
version = "0.1.0"
edition = "2021"
publish = false

[dependencies]
ndarray = "*"
ndrustfft = "*"
num = "*"
ndarray-npy = "*"
ndarray-rand = "*"
approx = "*"
thiserror = "*"
serde = { version = "*", features = ["derive"] }
audio-blocks = "*"
audio-io = "*"
audio-file = "*"
eframe = { version = "*", default-features = false, features = ["glow", "x11", "default_fonts"] }
egui_plot = "*"
winit = "*"
rfd = { version = "*", default-features = false }
image = { version = "*", default-features = false, features = ["png"] }
