[package]
name = "macground"
version = "0.1.0"
edition = "2021"
publish = false

[dependencies]
glyph_brush_layout = "0.2"
csscolorparser = "0.6"
rand = "0.8"
image = { version = "0.24", default-features = false, features = ["png", "jpeg"] }
clap = { version = "4", features = ["derive"] }
serde = { version = "1", features = ["derive"] }
reqwest = { version = "0.11", default-features = false, features = ["blocking", "json", "rustls-tls"] }
dotenv = "0.15"
directories = "5"
wallpaper = "3"
display-info = "0.5"
word_generator = "*"
