[package]
name = "epd_reader"
version = "0.1.0"
edition = "2021"
publish = false

[dependencies]
heapless = "=0.8.0"
time = { version = "=0.3.55", default-features = false }
embedded-sdmmc = "=0.10.0"
embedded-graphics = "=0.8.2"
embedded-storage = "=0.3.2"
embedded-text = "=0.7.3"
eg-seven-segment = "=0.2.0"
u8g2-fonts = { version = "=0.8.0", features = ["embedded_graphics_textstyle"] }
ab_glyph = "=0.2.32"
embedded-hal = "=1.0.0"
log = "=0.4.35"
