[package]
name = "pdf2png"
version = "0.1.0"
edition = "2021"
publish = false

[dependencies]
pdf-extract = "*"
clap = { version = "*", features = ["derive"] }
clio = { version = "*", features = ["clap-parse"] }
image = "*"
pdfium-render = "*"
