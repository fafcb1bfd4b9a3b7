[package]
name = "crab_dl"
version = "0.1.0"
edition = "2021"
publish = false

[dependencies]
clap = { version = "=4.6.7", features = ["derive"] }
dirs = "=6.0.0"
eframe = { version = "=0.31.1", default-features = false, features = ["glow", "default_fonts"] }
egui_extras = { version = "=0.31.1", default-features = false, features = ["image"] }
# Named only for its features: they give the window its X11/GLX backend.
# eframe's own `x11` feature would also lock the wgpu renderer, which the
# program does not use.
glutin-winit = { version = "=0.5.0", default-features = false, features = ["glx", "x11"] }
indicatif = "=0.17.11"
rayon = "=1.12.0"
reqwest = { version = "=0.12.28", default-features = false, features = ["blocking", "rustls-tls"] }
rfd = { version = "=0.15.4", default-features = false, features = ["xdg-portal", "tokio"] }
