[package]
name = "scalajs_wit_bindgen"
version = "0.1.0"
edition = "2021"
publish = false

[dependencies]
convert_case = "0.6"
clap = { version = "4", features = ["derive"] }
color-eyre = "0.6"
id-arena = "2"
wit-parser = "*"
