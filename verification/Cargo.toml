[package]
name = "sonata_audio"
version = "0.1.0"
edition = "2021"
publish = false

[dependencies]
clap = "2"
libpulse-binding = "2"
libpulse-simple-binding = "2"
